//! The keys of policy documents, told apart.

use vstd::prelude::*;

verus! {

/// A number by which the keys of policy documents differ: made of the length
/// and of some characters.
pub open spec fn mark(key: Seq<char>) -> int {
    if key.len() < 4 {
        1_000 * key.len() + key[0] as int
    } else {
        1_000_000_000 * key.len() + 1_000_000 * (key[0] as int) + 1_000 * (key[key.len() - 4] as int)
            + key[key.len() as int / 2] as int
    }
}

/// No two keys of policy documents are the same: their marks differ.
pub proof fn lemma_marks()
    ensures
        mark("access"@) == 6_097_099_101,
        mark("action"@) == 6_097_116_105,
        mark("advisor_proposed"@) == 16_097_111_112,
        mark("allow"@) == 5_097_108_108,
        mark("allow_encoded_slash"@) == 19_097_108_111,
        mark("allow_uninspected_credentials"@) == 29_097_105_116,
        mark("allowed_ips"@) == 11_097_095_101,
        mark("ancestors"@) == 9_097_116_115,
        mark("any"@) == 3_097,
        mark("binaries"@) == 8_098_114_114,
        mark("cmdline_paths"@) == 13_099_097_101,
        mark("command"@) == 7_099_109_109,
        mark("compatibility"@) == 13_099_108_105,
        mark("config"@) == 6_099_110_102,
        mark("credential_binding"@) == 18_099_100_108,
        mark("credential_signing"@) == 18_099_110_108,
        mark("deny_reason"@) == 11_100_097_114,
        mark("deny_rules"@) == 10_100_117_114,
        mark("endpoint"@) == 8_101_111_111,
        mark("endpoint_configs"@) == 16_101_102_095,
        mark("endpoint_id"@) == 11_101_116_105,
        mark("endpoint_index"@) == 14_101_110_116,
        mark("endpoints"@) == 9_101_105_111,
        mark("enforcement"@) == 11_101_109_099,
        mark("exact_declared_endpoint_host"@) == 28_101_104_095,
        mark("exclude"@) == 7_101_108_108,
        mark("exec"@) == 4_101_101_101,
        mark("fields"@) == 6_102_101_108,
        mark("filesystem_policy"@) == 17_102_108_101,
        mark("glob"@) == 4_103_103_111,
        mark("graphql_max_body_bytes"@) == 22_103_121_095,
        mark("graphql_persisted_queries"@) == 25_103_114_105,
        mark("host"@) == 4_104_104_115,
        mark("include"@) == 7_105_108_108,
        mark("include_workdir"@) == 15_105_107_095,
        mark("json_rpc_max_body_bytes"@) == 23_106_121_120,
        mark("landlock"@) == 8_108_108_108,
        mark("matched_endpoints"@) == 17_109_105_101,
        mark("matched_policy"@) == 14_109_108_095,
        mark("mcp_allow_all_known_mcp_methods"@) == 31_109_104_110,
        mark("mcp_strict_tool_names"@) == 21_109_097_095,
        mark("mcp_versions"@) == 12_109_105_114,
        mark("method"@) == 6_109_116_104,
        mark("middleware"@) == 10_109_119_101,
        mark("name"@) == 4_110_110_109,
        mark("network"@) == 7_110_119_119,
        mark("network_middlewares"@) == 19_110_097_105,
        mark("network_policies"@) == 16_110_099_112,
        mark("on_error"@) == 8_111_114_114,
        mark("operation_name"@) == 14_111_110_111,
        mark("operation_type"@) == 14_111_116_111,
        mark("order"@) == 5_111_114_100,
        mark("params"@) == 6_112_114_097,
        mark("path"@) == 4_112_112_116,
        mark("persisted_queries"@) == 17_112_114_100,
        mark("policy_hash"@) == 11_112_104_121,
        mark("policy_name"@) == 11_112_110_121,
        mark("port"@) == 4_112_112_114,
        mark("ports"@) == 5_112_111_114,
        mark("process"@) == 7_112_099_099,
        mark("protocol"@) == 8_112_111_111,
        mark("provider"@) == 8_112_105_105,
        mark("provider_credentialed"@) == 21_112_097_114,
        mark("query"@) == 5_113_117_101,
        mark("read_only"@) == 9_114_111_095,
        mark("read_write"@) == 10_114_114_119,
        mark("request_body_credential_rewrite"@) == 31_114_114_101,
        mark("rules"@) == 5_114_117_108,
        mark("run_as_group"@) == 12_114_114_095,
        mark("run_as_user"@) == 11_114_117_115,
        mark("signing_region"@) == 14_115_103_095,
        mark("signing_service"@) == 15_115_118_095,
        mark("tls"@) == 3_116,
        mark("websocket_credential_rewrite"@) == 28_119_114_101,
{
    reveal_strlit("access");
    reveal_strlit("action");
    reveal_strlit("advisor_proposed");
    reveal_strlit("allow");
    reveal_strlit("allow_encoded_slash");
    reveal_strlit("allow_uninspected_credentials");
    reveal_strlit("allowed_ips");
    reveal_strlit("ancestors");
    reveal_strlit("any");
    reveal_strlit("binaries");
    reveal_strlit("cmdline_paths");
    reveal_strlit("command");
    reveal_strlit("compatibility");
    reveal_strlit("config");
    reveal_strlit("credential_binding");
    reveal_strlit("credential_signing");
    reveal_strlit("deny_reason");
    reveal_strlit("deny_rules");
    reveal_strlit("endpoint");
    reveal_strlit("endpoint_configs");
    reveal_strlit("endpoint_id");
    reveal_strlit("endpoint_index");
    reveal_strlit("endpoints");
    reveal_strlit("enforcement");
    reveal_strlit("exact_declared_endpoint_host");
    reveal_strlit("exclude");
    reveal_strlit("exec");
    reveal_strlit("fields");
    reveal_strlit("filesystem_policy");
    reveal_strlit("glob");
    reveal_strlit("graphql_max_body_bytes");
    reveal_strlit("graphql_persisted_queries");
    reveal_strlit("host");
    reveal_strlit("include");
    reveal_strlit("include_workdir");
    reveal_strlit("json_rpc_max_body_bytes");
    reveal_strlit("landlock");
    reveal_strlit("matched_endpoints");
    reveal_strlit("matched_policy");
    reveal_strlit("mcp_allow_all_known_mcp_methods");
    reveal_strlit("mcp_strict_tool_names");
    reveal_strlit("mcp_versions");
    reveal_strlit("method");
    reveal_strlit("middleware");
    reveal_strlit("name");
    reveal_strlit("network");
    reveal_strlit("network_middlewares");
    reveal_strlit("network_policies");
    reveal_strlit("on_error");
    reveal_strlit("operation_name");
    reveal_strlit("operation_type");
    reveal_strlit("order");
    reveal_strlit("params");
    reveal_strlit("path");
    reveal_strlit("persisted_queries");
    reveal_strlit("policy_hash");
    reveal_strlit("policy_name");
    reveal_strlit("port");
    reveal_strlit("ports");
    reveal_strlit("process");
    reveal_strlit("protocol");
    reveal_strlit("provider");
    reveal_strlit("provider_credentialed");
    reveal_strlit("query");
    reveal_strlit("read_only");
    reveal_strlit("read_write");
    reveal_strlit("request_body_credential_rewrite");
    reveal_strlit("rules");
    reveal_strlit("run_as_group");
    reveal_strlit("run_as_user");
    reveal_strlit("signing_region");
    reveal_strlit("signing_service");
    reveal_strlit("tls");
    reveal_strlit("websocket_credential_rewrite");
}

} // verus!
