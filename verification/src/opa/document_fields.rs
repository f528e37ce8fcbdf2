//! What the policy rules find in the data document of a typed policy.

use crate::json::{Json, NumberModel};
use crate::opa::builder;
use crate::opa::builder_laws;
use crate::opa::document;
use crate::opa::document_laws;
use crate::opa::keys;
use crate::opa::policy::{
    BinaryResolution, GraphqlOperation, L7QueryMatcher, L7Rule, L7Selector,
    McpOptions, NetworkBinary, NetworkEndpoint, NetworkMiddleware, NetworkPolicyRule, SandboxPolicy,
};
use crate::text;
use vstd::prelude::*;

verus! {

broadcast use builder_laws::group_found;

/// Whether a value is the array of some texts, in order.
pub open spec fn is_texts(value: Json, list: Seq<String>) -> bool {
    value matches Json::Array(items) && items.len() == list.len() && forall|i: int|
        0 <= i < list.len() ==> #[trigger] items[i] == Json::Text(list[i]@)
}

/// Whether what was found is the array of some texts, and nothing where there
/// are no texts.
pub open spec fn is_texts_if_any(found: Option<Json>, list: Seq<String>) -> bool {
    if list.len() == 0 {
        found is None
    } else {
        found matches Some(value) && is_texts(value, list)
    }
}

/// Whether what was found is a text, and nothing where the text is empty.
pub open spec fn is_text_if_any(found: Option<Json>, s: String) -> bool {
    if s@.len() == 0 {
        found is None
    } else {
        found == Some(Json::Text(s@))
    }
}

/// Whether what was found is `true` where a flag is set, and nothing otherwise.
pub open spec fn is_flag(found: Option<Json>, flag: bool) -> bool {
    if flag {
        found == Some(Json::Bool(true))
    } else {
        found is None
    }
}

/// Whether what was found is a number, and nothing where the number is zero.
pub open spec fn is_number_if_any(found: Option<Json>, n: u32) -> bool {
    if n == 0 {
        found is None
    } else {
        found == Some(Json::Number(NumberModel::Integer(n as int)))
    }
}

/// Whether what was found is a truth value, and nothing where there is none.
pub open spec fn is_bool_if_any(found: Option<Json>, value: Option<bool>) -> bool {
    match value {
        Some(b) => found == Some(Json::Bool(b)),
        None => found is None,
    }
}

/// Whether what was found holds the entries of some matchers, in order, each
/// with its pattern and its alternatives.
pub open spec fn is_matchers_if_any(found: Option<Json>, list: Seq<(String, L7QueryMatcher)>) -> bool {
    if list.len() == 0 {
        found is None
    } else {
        found matches Some(Json::Object(object)) && object.len() == list.len() && forall|i: int|
            #![trigger object[i]]
            0 <= i < list.len() ==> {
                &&& object[i].0 == list[i].0@
                &&& is_text_if_any(object[i].1.field("glob"@), list[i].1.glob)
                &&& is_texts_if_any(object[i].1.field("any"@), list[i].1.any@)
            }
    }
}

/// Whether a value holds what a rule selects, under the keys by which the
/// policy rules ask.
pub open spec fn is_selector(value: Json, selector: L7Selector) -> bool {
    &&& is_text_if_any(value.field("method"@), selector.method)
    &&& is_text_if_any(value.field("path"@), selector.path)
    &&& is_text_if_any(value.field("command"@), selector.command)
    &&& is_text_if_any(value.field("operation_type"@), selector.operation_type)
    &&& is_text_if_any(value.field("operation_name"@), selector.operation_name)
    &&& is_texts_if_any(value.field("fields"@), selector.fields@)
    &&& is_matchers_if_any(value.field("query"@), selector.query@)
    &&& is_matchers_if_any(value.field("params"@), selector.params@)
}

proof fn lemma_texts(list: Seq<String>)
    ensures
        is_texts(builder::text_array(text::texts(list)), list),
        text::texts(list).len() == list.len(),
{
}

proof fn lemma_matchers(list: Seq<(String, L7QueryMatcher)>)
    ensures
        list.len() == 0 <==> document::matchers_json(list).len() == 0,
        is_matchers_if_any(
            if list.len() == 0 {
                None
            } else {
                Some(Json::Object(document::matchers_json(list)))
            },
            list,
        ),
{
    keys::lemma_marks();
    let object = document::matchers_json(list);
    assert forall|i: int| #![trigger object[i]] 0 <= i < list.len() implies {
        &&& object[i].0 == list[i].0@
        &&& is_text_if_any(object[i].1.field("glob"@), list[i].1.glob)
        &&& is_texts_if_any(object[i].1.field("any"@), list[i].1.any@)
    } by {
        lemma_texts(list[i].1.any@);
        builder_laws::found_is_lookup(document::matcher_json(list[i].1)->Object_0, "glob"@);
        builder_laws::found_is_lookup(document::matcher_json(list[i].1)->Object_0, "any"@);
        assert(object[i] == (list[i].0@, document::matcher_json(list[i].1)));
    }
}

proof fn lemma_selector(selector: L7Selector)
    ensures
        is_selector(Json::Object(document::selector_json(selector)), selector),
{
    keys::lemma_marks();
    lemma_texts(selector.fields@);
    lemma_matchers(selector.query@);
    lemma_matchers(selector.params@);
    builder_laws::found_is_lookup(document::selector_json(selector), "method"@);
    builder_laws::found_is_lookup(document::selector_json(selector), "path"@);
    builder_laws::found_is_lookup(document::selector_json(selector), "command"@);
    builder_laws::found_is_lookup(document::selector_json(selector), "operation_type"@);
    builder_laws::found_is_lookup(document::selector_json(selector), "operation_name"@);
    builder_laws::found_is_lookup(document::selector_json(selector), "fields"@);
    builder_laws::found_is_lookup(document::selector_json(selector), "query"@);
    builder_laws::found_is_lookup(document::selector_json(selector), "params"@);
}

/// Whether what was found lists deny rules in order, each with what it selects,
/// and nothing where there are none.
pub open spec fn is_deny_rules_if_any(found: Option<Json>, rules: Seq<L7Selector>) -> bool {
    if rules.len() == 0 {
        found is None
    } else {
        found matches Some(Json::Array(items)) && items.len() == rules.len() && forall|i: int|
            0 <= i < rules.len() ==> is_selector(#[trigger] items[i], rules[i])
    }
}

/// Whether what was found lists allow rules in order, each with what it selects
/// under `allow`, and nothing where there are none.
pub open spec fn is_rules_if_any(found: Option<Json>, rules: Seq<L7Rule>) -> bool {
    if rules.len() == 0 {
        found is None
    } else {
        found matches Some(Json::Array(items)) && items.len() == rules.len() && forall|i: int|
            #![trigger items[i]]
            0 <= i < rules.len() ==> {
                &&& items[i].field("allow"@) is Some
                &&& match rules[i].allow {
                    Some(selector) => is_selector(items[i].field("allow"@)->Some_0, selector),
                    None => items[i].field("allow"@) == Some(Json::Object(Seq::empty())),
                }
            }
    }
}

/// Whether a key stands for what an endpoint matches.
pub open spec fn says_match(key: Seq<char>) -> bool {
    ||| key == "host"@
    ||| key == "ports"@
    ||| key == "path"@
    ||| key == "protocol"@
    ||| key == "tls"@
    ||| key == "enforcement"@
    ||| key == "access"@
    ||| key == "rules"@
    ||| key == "allowed_ips"@
    ||| key == "advisor_proposed"@
    ||| key == "deny_rules"@
}

/// Whether a key stands for how an endpoint treats credentials.
pub open spec fn says_credential(key: Seq<char>) -> bool {
    ||| key == "allow_encoded_slash"@
    ||| key == "websocket_credential_rewrite"@
    ||| key == "request_body_credential_rewrite"@
    ||| key == "allow_uninspected_credentials"@
    ||| key == "provider_credentialed"@
    ||| key == "endpoint_id"@
    ||| key == "policy_hash"@
    ||| key == "credential_signing"@
    ||| key == "signing_service"@
    ||| key == "signing_region"@
    ||| key == "credential_binding"@
}

/// Whether a key stands for what an endpoint says of one protocol.
pub open spec fn says_protocol(key: Seq<char>) -> bool {
    ||| key == "persisted_queries"@
    ||| key == "graphql_persisted_queries"@
    ||| key == "graphql_max_body_bytes"@
    ||| key == "json_rpc_max_body_bytes"@
    ||| key == "mcp_versions"@
    ||| key == "mcp_strict_tool_names"@
    ||| key == "mcp_allow_all_known_mcp_methods"@
}

proof fn lemma_identity(e: NetworkEndpoint, policy_hash: Seq<char>, key: Seq<char>)
    ensures
        builder_laws::found(document::identity_json(e, policy_hash), key) == match e.endpoint_id {
            Some(id) => if key == "endpoint_id"@ {
                Some(Json::Text(id@))
            } else if key == "policy_hash"@ {
                Some(Json::Text(policy_hash))
            } else {
                None::<Json>
            },
            None => None::<Json>,
        },
{
}

proof fn lemma_binding(provider: Option<String>, key: Seq<char>)
    ensures
        builder_laws::found(document::binding_json(provider), key) == match provider {
            Some(provider) => if key == "credential_binding"@ {
                Some(Json::Object(builder::entry("provider"@, Json::Text(provider@))))
            } else {
                None::<Json>
            },
            None => None::<Json>,
        },
{
}

proof fn lemma_mcp(protocol: Seq<char>, mcp: Option<McpOptions>, key: Seq<char>)
    ensures
        builder_laws::found(document::mcp_json(protocol, mcp), key) == match mcp {
            Some(options) => if key == "mcp_versions"@ && text::lowered(protocol) == text::lowered(
                "mcp"@,
            ) {
                Some(builder::text_array(text::texts(options.versions@)))
            } else if key == "mcp_strict_tool_names"@ && options.strict_tool_names is Some {
                Some(Json::Bool(options.strict_tool_names->Some_0))
            } else if key == "mcp_allow_all_known_mcp_methods"@
                && options.allow_all_known_mcp_methods is Some {
                Some(Json::Bool(options.allow_all_known_mcp_methods->Some_0))
            } else {
                None::<Json>
            },
            None => None::<Json>,
        },
{
    keys::lemma_marks();
}

proof fn lemma_absent_from_match(e: NetworkEndpoint, key: Seq<char>)
    requires
        says_credential(key) || says_protocol(key),
    ensures
        builder_laws::found(document::endpoint_match_json(e), key) is None,
{
    keys::lemma_marks();
}

proof fn lemma_absent_from_credential(e: NetworkEndpoint, policy_hash: Seq<char>, key: Seq<char>)
    requires
        says_match(key) || says_protocol(key),
    ensures
        builder_laws::found(document::endpoint_credential_json(e, policy_hash), key) is None,
{
    keys::lemma_marks();
    lemma_identity(e, policy_hash, key);
    lemma_binding(e.credential_provider, key);
}

proof fn lemma_absent_from_protocol(e: NetworkEndpoint, key: Seq<char>)
    requires
        says_match(key) || says_credential(key),
    ensures
        builder_laws::found(document::endpoint_protocol_json(e), key) is None,
{
    keys::lemma_marks();
    lemma_mcp(e.protocol@, e.mcp, key);
}

proof fn lemma_endpoint(e: NetworkEndpoint, policy_hash: Seq<char>, key: Seq<char>)
    ensures
        says_match(key) ==> document::endpoint_json(e, policy_hash).field(key)
            == builder_laws::found(document::endpoint_match_json(e), key),
        says_credential(key) ==> document::endpoint_json(e, policy_hash).field(key)
            == builder_laws::found(document::endpoint_credential_json(e, policy_hash), key),
        says_protocol(key) ==> document::endpoint_json(e, policy_hash).field(key)
            == builder_laws::found(document::endpoint_protocol_json(e), key),
{
    builder_laws::found_is_lookup(
        document::endpoint_match_json(e) + document::endpoint_credential_json(e, policy_hash)
            + document::endpoint_protocol_json(e),
        key,
    );
    if says_match(key) {
        lemma_absent_from_credential(e, policy_hash, key);
        lemma_absent_from_protocol(e, key);
    }
    if says_credential(key) {
        lemma_absent_from_match(e, key);
        lemma_absent_from_protocol(e, key);
    }
    if says_protocol(key) {
        lemma_absent_from_match(e, key);
        lemma_absent_from_credential(e, policy_hash, key);
    }
}

/// The deny rules of an endpoint stand in its document under `deny_rules`: one
/// object for each rule, in order, with what the rule selects. Without deny
/// rules the key is absent.
pub proof fn deny_rules_are_found(e: NetworkEndpoint, policy_hash: Seq<char>)
    ensures
        is_deny_rules_if_any(
            document::endpoint_json(e, policy_hash).field("deny_rules"@),
            e.deny_rules@,
        ),
{
    keys::lemma_marks();
    lemma_endpoint(e, policy_hash, "deny_rules"@);
    let items = document::deny_rules_json(e.deny_rules@);
    assert forall|i: int| 0 <= i < e.deny_rules@.len() implies is_selector(
        #[trigger] items[i],
        e.deny_rules@[i],
    ) by {
        lemma_selector(e.deny_rules@[i]);
    }
}

/// The allow rules of an endpoint stand in its document under `rules`: one
/// object for each rule, in order, with what the rule selects under `allow`.
/// Without allow rules the key is absent.
pub proof fn allow_rules_are_found(e: NetworkEndpoint, policy_hash: Seq<char>)
    ensures
        is_rules_if_any(document::endpoint_json(e, policy_hash).field("rules"@), e.rules@),
{
    keys::lemma_marks();
    lemma_endpoint(e, policy_hash, "rules"@);
    let items = document::rules_json(e.rules@);
    assert forall|i: int| #![trigger items[i]] 0 <= i < e.rules@.len() implies {
        &&& items[i].field("allow"@) is Some
        &&& match e.rules@[i].allow {
            Some(selector) => is_selector(items[i].field("allow"@)->Some_0, selector),
            None => items[i].field("allow"@) == Some(Json::Object(Seq::empty())),
        }
    } by {
        assert(items[i] == document::rule_json(e.rules@[i]));
        builder_laws::found_is_lookup(document::rule_json(e.rules@[i])->Object_0, "allow"@);
        if let Some(selector) = e.rules@[i].allow {
            lemma_selector(selector);
        }
    }
}

/// The ports of an endpoint are those that it lists, or else its single port,
/// or else none.
pub open spec fn ports_of(e: NetworkEndpoint) -> Seq<u32> {
    if e.ports@.len() > 0 {
        e.ports@
    } else if e.port != 0 {
        seq![e.port]
    } else {
        Seq::empty()
    }
}

/// What an endpoint matches stands in its document: host, ports, path,
/// protocol, TLS mode, enforcement, access and addresses, each under its key.
pub proof fn endpoint_match_is_found(e: NetworkEndpoint, policy_hash: Seq<char>)
    ensures
        ({
            let value = document::endpoint_json(e, policy_hash);
            &&& value.field("host"@) == Some(Json::Text(e.host@))
            &&& value.field("ports"@) matches Some(Json::Array(items)) && items.len() == ports_of(
                e,
            ).len() && forall|i: int|
                0 <= i < items.len() ==> #[trigger] items[i] == Json::Number(
                    NumberModel::Integer(ports_of(e)[i] as int),
                )
            &&& is_text_if_any(value.field("path"@), e.path)
            &&& is_text_if_any(value.field("protocol"@), e.protocol)
            &&& is_text_if_any(value.field("tls"@), e.tls)
            &&& is_text_if_any(value.field("enforcement"@), e.enforcement)
            &&& is_text_if_any(value.field("access"@), e.access)
            &&& is_texts_if_any(value.field("allowed_ips"@), e.allowed_ips@)
            &&& is_flag(value.field("advisor_proposed"@), e.advisor_proposed)
        }),
{
    keys::lemma_marks();
    lemma_endpoint(e, policy_hash, "host"@);
    lemma_endpoint(e, policy_hash, "ports"@);
    lemma_endpoint(e, policy_hash, "path"@);
    lemma_endpoint(e, policy_hash, "protocol"@);
    lemma_endpoint(e, policy_hash, "tls"@);
    lemma_endpoint(e, policy_hash, "enforcement"@);
    lemma_endpoint(e, policy_hash, "access"@);
    lemma_endpoint(e, policy_hash, "allowed_ips"@);
    lemma_endpoint(e, policy_hash, "advisor_proposed"@);
    lemma_texts(e.allowed_ips@);
}

/// How an endpoint treats credentials stands in its document. A flag that is
/// not set is absent, so that nothing is granted by its presence.
pub proof fn endpoint_credential_flags_are_found(e: NetworkEndpoint, policy_hash: Seq<char>)
    ensures
        ({
            let value = document::endpoint_json(e, policy_hash);
            &&& is_flag(value.field("allow_encoded_slash"@), e.allow_encoded_slash)
            &&& is_flag(value.field("websocket_credential_rewrite"@), e.websocket_credential_rewrite)
            &&& is_flag(
                value.field("request_body_credential_rewrite"@),
                e.request_body_credential_rewrite,
            )
            &&& is_flag(
                value.field("allow_uninspected_credentials"@),
                e.allow_uninspected_credentials,
            )
            &&& is_flag(value.field("provider_credentialed"@), e.provider_credentialed)
        }),
{
    keys::lemma_marks();
    lemma_endpoint(e, policy_hash, "allow_encoded_slash"@);
    lemma_endpoint(e, policy_hash, "websocket_credential_rewrite"@);
    lemma_endpoint(e, policy_hash, "request_body_credential_rewrite"@);
    lemma_endpoint(e, policy_hash, "allow_uninspected_credentials"@);
    lemma_endpoint(e, policy_hash, "provider_credentialed"@);
}

/// How the requests to an endpoint are signed stands in its document.
pub proof fn endpoint_signing_is_found(e: NetworkEndpoint, policy_hash: Seq<char>)
    ensures
        ({
            let value = document::endpoint_json(e, policy_hash);
            &&& is_text_if_any(value.field("credential_signing"@), e.credential_signing)
            &&& is_text_if_any(value.field("signing_service"@), e.signing_service)
            &&& is_text_if_any(value.field("signing_region"@), e.signing_region)
        }),
{
    keys::lemma_marks();
    lemma_endpoint(e, policy_hash, "credential_signing"@);
    lemma_identity(e, policy_hash, "credential_signing"@);
    lemma_binding(e.credential_provider, "credential_signing"@);
    lemma_endpoint(e, policy_hash, "signing_service"@);
    lemma_identity(e, policy_hash, "signing_service"@);
    lemma_binding(e.credential_provider, "signing_service"@);
    lemma_endpoint(e, policy_hash, "signing_region"@);
    lemma_identity(e, policy_hash, "signing_region"@);
    lemma_binding(e.credential_provider, "signing_region"@);
}

/// The provider that the credential of an endpoint is bound to, and the identity
/// of an MCP endpoint with the hash of the policy, stand in its document.
pub proof fn endpoint_identity_is_found(e: NetworkEndpoint, policy_hash: Seq<char>)
    ensures
        ({
            let value = document::endpoint_json(e, policy_hash);
            &&& match e.credential_provider {
                Some(provider) => {
                    &&& value.field("credential_binding"@) is Some
                    &&& value.field("credential_binding"@)->Some_0.field("provider"@) == Some(
                        Json::Text(provider@),
                    )
                },
                None => value.field("credential_binding"@) is None,
            }
            &&& match e.endpoint_id {
                Some(id) => {
                    &&& value.field("endpoint_id"@) == Some(Json::Text(id@))
                    &&& value.field("policy_hash"@) == Some(Json::Text(policy_hash))
                },
                None => {
                    &&& value.field("endpoint_id"@) is None
                    &&& value.field("policy_hash"@) is None
                },
            }
        }),
{
    keys::lemma_marks();
    lemma_endpoint(e, policy_hash, "credential_binding"@);
    lemma_identity(e, policy_hash, "credential_binding"@);
    lemma_binding(e.credential_provider, "credential_binding"@);
    lemma_endpoint(e, policy_hash, "endpoint_id"@);
    lemma_identity(e, policy_hash, "endpoint_id"@);
    lemma_binding(e.credential_provider, "endpoint_id"@);
    if let Some(provider) = e.credential_provider {
        builder_laws::found_is_lookup(
            builder::entry("provider"@, Json::Text(provider@)),
            "provider"@,
        );
    }
    lemma_endpoint(e, policy_hash, "policy_hash"@);
    lemma_identity(e, policy_hash, "policy_hash"@);
    lemma_binding(e.credential_provider, "policy_hash"@);
}

/// Whether what was found holds persisted operations under their keys, in
/// order, and nothing where there are none.
pub open spec fn is_operations_if_any(
    found: Option<Json>,
    list: Seq<(String, GraphqlOperation)>,
) -> bool {
    if list.len() == 0 {
        found is None
    } else {
        found matches Some(Json::Object(object)) && object.len() == list.len() && forall|i: int|
            #![trigger object[i]]
            0 <= i < list.len() ==> {
                &&& object[i].0 == list[i].0@
                &&& object[i].1.field("operation_type"@) == Some(
                    Json::Text(list[i].1.operation_type@),
                )
                &&& object[i].1.field("operation_name"@) == Some(
                    Json::Text(list[i].1.operation_name@),
                )
                &&& object[i].1.field("fields"@) matches Some(fields) && is_texts(
                    fields,
                    list[i].1.fields@,
                )
            }
    }
}

/// What an endpoint says of one protocol stands in its document. The revisions
/// of MCP stand there for MCP endpoints alone.
pub proof fn endpoint_protocol_is_found(e: NetworkEndpoint, policy_hash: Seq<char>)
    ensures
        ({
            let value = document::endpoint_json(e, policy_hash);
            &&& is_text_if_any(value.field("persisted_queries"@), e.persisted_queries)
            &&& is_operations_if_any(
                value.field("graphql_persisted_queries"@),
                e.graphql_persisted_queries@,
            )
            &&& is_number_if_any(value.field("graphql_max_body_bytes"@), e.graphql_max_body_bytes)
            &&& is_number_if_any(value.field("json_rpc_max_body_bytes"@), e.json_rpc_max_body_bytes)
            &&& match e.mcp {
                Some(options) => {
                    &&& if text::lowered(e.protocol@) == text::lowered("mcp"@) {
                        value.field("mcp_versions"@) matches Some(versions) && is_texts(
                            versions,
                            options.versions@,
                        )
                    } else {
                        value.field("mcp_versions"@) is None
                    }
                    &&& is_bool_if_any(
                        value.field("mcp_strict_tool_names"@),
                        options.strict_tool_names,
                    )
                    &&& is_bool_if_any(
                        value.field("mcp_allow_all_known_mcp_methods"@),
                        options.allow_all_known_mcp_methods,
                    )
                },
                None => {
                    &&& value.field("mcp_versions"@) is None
                    &&& value.field("mcp_strict_tool_names"@) is None
                    &&& value.field("mcp_allow_all_known_mcp_methods"@) is None
                },
            }
        }),
{
    keys::lemma_marks();
    lemma_endpoint(e, policy_hash, "persisted_queries"@);
    lemma_endpoint(e, policy_hash, "graphql_persisted_queries"@);
    lemma_endpoint(e, policy_hash, "graphql_max_body_bytes"@);
    lemma_endpoint(e, policy_hash, "json_rpc_max_body_bytes"@);
    lemma_endpoint(e, policy_hash, "mcp_versions"@);
    lemma_mcp(e.protocol@, e.mcp, "mcp_versions"@);
    lemma_endpoint(e, policy_hash, "mcp_strict_tool_names"@);
    lemma_mcp(e.protocol@, e.mcp, "mcp_strict_tool_names"@);
    lemma_endpoint(e, policy_hash, "mcp_allow_all_known_mcp_methods"@);
    lemma_mcp(e.protocol@, e.mcp, "mcp_allow_all_known_mcp_methods"@);
    if let Some(options) = e.mcp {
        lemma_texts(options.versions@);
    }
    let list = e.graphql_persisted_queries@;
    let object = document::operations_json(list);
    assert forall|i: int| #![trigger object[i]] 0 <= i < list.len() implies {
        &&& object[i].0 == list[i].0@
        &&& object[i].1.field("operation_type"@) == Some(Json::Text(list[i].1.operation_type@))
        &&& object[i].1.field("operation_name"@) == Some(Json::Text(list[i].1.operation_name@))
        &&& object[i].1.field("fields"@) matches Some(fields) && is_texts(
            fields,
            list[i].1.fields@,
        )
    } by {
        lemma_texts(list[i].1.fields@);
        builder_laws::found_is_lookup(document::operation_json(list[i].1)->Object_0, "operation_type"@);
        builder_laws::found_is_lookup(document::operation_json(list[i].1)->Object_0, "operation_name"@);
        builder_laws::found_is_lookup(document::operation_json(list[i].1)->Object_0, "fields"@);
        assert(object[i] == (list[i].0@, document::operation_json(list[i].1)));
    }
}

/// The document of an endpoint holds no other keys than those that stand for a
/// part of the endpoint.
pub proof fn endpoint_holds_no_other_keys(
    e: NetworkEndpoint,
    policy_hash: Seq<char>,
    key: Seq<char>,
)
    requires
        !says_match(key),
        !says_credential(key),
        !says_protocol(key),
    ensures
        document::endpoint_json(e, policy_hash).field(key) is None,
{
    builder_laws::found_is_lookup(
        document::endpoint_match_json(e) + document::endpoint_credential_json(e, policy_hash)
            + document::endpoint_protocol_json(e),
        key,
    );
    lemma_identity(e, policy_hash, key);
    lemma_binding(e.credential_provider, key);
    lemma_mcp(e.protocol@, e.mcp, key);
}

/// The binaries of a policy stand under `binaries`: each path that the policy
/// names, in order, followed by the target that it was resolved to where it was.
pub proof fn binaries_are_found(rule: NetworkPolicyRule, policy_hash: Seq<char>)
    ensures
        ({
            let paths = rule.binaries@.map_values(
                |binary: NetworkBinary|
                    match binary.resolution {
                        BinaryResolution::Resolved(target) => seq![binary.path@, target@],
                        _ => seq![binary.path@],
                    },
            ).flatten();
            document::policy_json(rule, policy_hash).field("binaries"@) matches Some(
                Json::Array(items),
            ) && items.len() == paths.len() && forall|i: int|
                0 <= i < items.len() ==> (#[trigger] items[i]).field("path"@) == Some(
                    Json::Text(paths[i]),
                )
        }),
{
    keys::lemma_marks();
    builder_laws::found_is_lookup(document::policy_json(rule, policy_hash)->Object_0, "binaries"@);
    lemma_binaries(rule.binaries@);
}

proof fn lemma_binaries(list: Seq<NetworkBinary>)
    ensures
        ({
            let paths = list.map_values(
                |binary: NetworkBinary|
                    match binary.resolution {
                        BinaryResolution::Resolved(target) => seq![binary.path@, target@],
                        _ => seq![binary.path@],
                    },
            ).flatten();
            let items = document::binaries_json(list);
            items.len() == paths.len() && forall|i: int|
                0 <= i < items.len() ==> (#[trigger] items[i]).field("path"@) == Some(
                    Json::Text(paths[i]),
                )
        }),
    decreases list.len(),
{
    let f = |binary: NetworkBinary|
        match binary.resolution {
            BinaryResolution::Resolved(target) => seq![binary.path@, target@],
            _ => seq![binary.path@],
        };
    let rows = list.map_values(f);
    rows.lemma_flatten_and_flatten_alt_are_equivalent();
    if list.len() > 0 {
        let before = list.drop_last();
        lemma_binaries(before);
        assert(rows.drop_last() == before.map_values(f));
        before.map_values(f).lemma_flatten_and_flatten_alt_are_equivalent();
        let known = before.map_values(f).flatten();
        let paths = rows.flatten();
        assert(rows.last() == f(list.last()));
        assert(paths == known + f(list.last()));
        let items = document::binaries_json(list);
        let old_items = document::binaries_json(before);
        let new_items = document::binary_entries(list.last());
        assert(items == old_items + new_items);
        assert forall|path: Seq<char>|
            (#[trigger] document::binary_json(path)).field("path"@) == Some(Json::Text(path)) by {
            builder_laws::found_is_lookup(document::binary_json(path)->Object_0, "path"@);
        }
        assert forall|i: int| 0 <= i < items.len() implies (#[trigger] items[i]).field("path"@)
            == Some(Json::Text(paths[i])) by {
            if i < old_items.len() {
                assert(items[i] == old_items[i]);
                assert(paths[i] == known[i]);
            } else {
                assert(items[i] == new_items[i - old_items.len()]);
                assert(paths[i] == f(list.last())[i - old_items.len()]);
            }
        }
    }
}

/// A policy stands in its document with its name and with its endpoints, in
/// order.
pub proof fn policy_parts_are_found(rule: NetworkPolicyRule, policy_hash: Seq<char>)
    ensures
        document::policy_json(rule, policy_hash).field("name"@) == Some(Json::Text(rule.name@)),
        document::policy_json(rule, policy_hash).field("endpoints"@) matches Some(
            Json::Array(items),
        ) && items.len() == rule.endpoints@.len() && forall|i: int|
            0 <= i < items.len() ==> #[trigger] items[i] == document::endpoint_json(
                rule.endpoints@[i],
                policy_hash,
            ),
{
    keys::lemma_marks();
    builder_laws::found_is_lookup(document::policy_json(rule, policy_hash)->Object_0, "name"@);
    builder_laws::found_is_lookup(document::policy_json(rule, policy_hash)->Object_0, "endpoints"@);
}

/// A configured middleware stands in its document with its implementation, its
/// place in the order, its name, its configuration, what is done on its errors,
/// and the hosts that it is selected for.
pub proof fn middleware_parts_are_found(middleware: NetworkMiddleware)
    ensures
        ({
            let value = document::middleware_json(middleware);
            &&& value.field("middleware"@) == Some(Json::Text(middleware.middleware@))
            &&& value.field("order"@) == Some(
                Json::Number(NumberModel::Integer(middleware.order as int)),
            )
            &&& is_text_if_any(value.field("name"@), middleware.name)
            &&& value.field("config"@) == match middleware.config {
                Some(config) => Some(config@),
                None => None,
            }
            &&& is_text_if_any(value.field("on_error"@), middleware.on_error)
            &&& match middleware.endpoints {
                Some(selector) => {
                    &&& value.field("endpoints"@) is Some
                    &&& is_texts_if_any(
                        value.field("endpoints"@)->Some_0.field("include"@),
                        selector.included@,
                    )
                    &&& is_texts_if_any(
                        value.field("endpoints"@)->Some_0.field("exclude"@),
                        selector.excluded@,
                    )
                },
                None => value.field("endpoints"@) is None,
            }
        }),
{
    keys::lemma_marks();
    let object = document::middleware_json(middleware)->Object_0;
    builder_laws::found_is_lookup(object, "middleware"@);
    builder_laws::found_is_lookup(object, "order"@);
    builder_laws::found_is_lookup(object, "name"@);
    builder_laws::found_is_lookup(object, "config"@);
    builder_laws::found_is_lookup(object, "on_error"@);
    builder_laws::found_is_lookup(object, "endpoints"@);
    if let Some(selector) = middleware.endpoints {
        lemma_texts(selector.included@);
        lemma_texts(selector.excluded@);
        let hosts = builder::some_texts("include"@, text::texts(selector.included@))
            + builder::some_texts("exclude"@, text::texts(selector.excluded@));
        builder_laws::found_is_lookup(hosts, "include"@);
        builder_laws::found_is_lookup(hosts, "exclude"@);
    }
}

/// The filesystem section of a policy stands in its data document. Without one,
/// the working directory is included and no path is listed.
pub proof fn filesystem_is_found(policy: SandboxPolicy)
    ensures
        ({
            let section = document::policy_data(policy).field("filesystem_policy"@);
            &&& section is Some
            &&& match policy.filesystem {
                Some(fs) => {
                    &&& section->Some_0.field("include_workdir"@) == Some(
                        Json::Bool(fs.include_workdir),
                    )
                    &&& section->Some_0.field("read_only"@) matches Some(list) && is_texts(
                        list,
                        fs.read_only@,
                    )
                    &&& section->Some_0.field("read_write"@) matches Some(list) && is_texts(
                        list,
                        fs.read_write@,
                    )
                },
                None => {
                    &&& section->Some_0.field("include_workdir"@) == Some(Json::Bool(true))
                    &&& section->Some_0.field("read_only"@) == Some(Json::Array(Seq::empty()))
                    &&& section->Some_0.field("read_write"@) == Some(Json::Array(Seq::empty()))
                },
            }
        }),
{
    keys::lemma_marks();
    builder_laws::found_is_lookup(document::policy_data(policy)->Object_0, "filesystem_policy"@);
    let section = document::filesystem_json(policy.filesystem)->Object_0;
    builder_laws::found_is_lookup(section, "include_workdir"@);
    builder_laws::found_is_lookup(section, "read_only"@);
    builder_laws::found_is_lookup(section, "read_write"@);
    if let Some(fs) = policy.filesystem {
        lemma_texts(fs.read_only@);
        lemma_texts(fs.read_write@);
    }
}

/// The Landlock and process sections of a policy stand in its data document.
/// Without them, Landlock is applied as far as it goes, and the process runs as
/// the user and group `sandbox`.
pub proof fn process_is_found(policy: SandboxPolicy)
    ensures
        ({
            let landlock = document::policy_data(policy).field("landlock"@);
            let process = document::policy_data(policy).field("process"@);
            &&& landlock is Some
            &&& landlock->Some_0.field("compatibility"@) == Some(
                Json::Text(
                    match policy.landlock {
                        Some(section) => section.compatibility@,
                        None => "best_effort"@,
                    },
                ),
            )
            &&& process is Some
            &&& process->Some_0.field("run_as_user"@) == Some(
                Json::Text(
                    match policy.process {
                        Some(section) => section.run_as_user@,
                        None => "sandbox"@,
                    },
                ),
            )
            &&& process->Some_0.field("run_as_group"@) == Some(
                Json::Text(
                    match policy.process {
                        Some(section) => section.run_as_group@,
                        None => "sandbox"@,
                    },
                ),
            )
        }),
{
    keys::lemma_marks();
    builder_laws::found_is_lookup(document::policy_data(policy)->Object_0, "landlock"@);
    builder_laws::found_is_lookup(document::policy_data(policy)->Object_0, "process"@);
    builder_laws::found_is_lookup(
        document::landlock_json(policy.landlock)->Object_0,
        "compatibility"@,
    );
    builder_laws::found_is_lookup(document::process_json(policy.process)->Object_0, "run_as_user"@);
    builder_laws::found_is_lookup(document::process_json(policy.process)->Object_0, "run_as_group"@);
}

/// Every network policy stands in the data document under `network_policies`,
/// in order, under its key; every middleware stands there under
/// `network_middlewares`, and there are no others.
pub proof fn policies_are_found(policy: SandboxPolicy)
    ensures
        document::policy_data(policy).field("network_policies"@) matches Some(Json::Object(list))
            && list.len() == policy.network_policies@.len() && forall|i: int|
            #![trigger list[i]]
            0 <= i < list.len() ==> list[i] == (
                policy.network_policies@[i].0@,
                document::policy_json(policy.network_policies@[i].1, policy.policy_hash@),
            ),
        document::policy_data(policy).field("network_middlewares"@) matches Some(Json::Object(list))
            && list.len() == policy.network_middlewares@.len() && forall|i: int|
            0 <= i < policy.network_middlewares@.len() ==> list.contains(
                (
                    (#[trigger] policy.network_middlewares@[i]).0@,
                    document::middleware_json(policy.network_middlewares@[i].1),
                ),
            ),
{
    keys::lemma_marks();
    builder_laws::found_is_lookup(document::policy_data(policy)->Object_0, "network_policies"@);
    builder_laws::found_is_lookup(document::policy_data(policy)->Object_0, "network_middlewares"@);
    lemma_middlewares_len(policy.network_middlewares@);
    assert forall|i: int| 0 <= i < policy.network_middlewares@.len() implies document::middlewares_json(
        policy.network_middlewares@,
    ).contains(
        (
            (#[trigger] policy.network_middlewares@[i]).0@,
            document::middleware_json(policy.network_middlewares@[i].1),
        ),
    ) by {
        document_laws::configured_middleware_stays(policy.network_middlewares@, i);
    }
}

proof fn lemma_middlewares_len(list: Seq<(String, NetworkMiddleware)>)
    ensures
        document::middlewares_json(list).len() == list.len(),
    decreases list.len(),
{
    if list.len() > 0 {
        lemma_middlewares_len(list.drop_last());
        lemma_sorted_len(
            document::middlewares_json(list.drop_last()),
            list.last().0@,
            document::middleware_json(list.last().1),
        );
    }
}

proof fn lemma_sorted_len(list: builder::Entries, key: Seq<char>, value: Json)
    ensures
        document::with_sorted(list, key, value).len() == list.len() + 1,
    decreases list.len(),
{
    if list.len() > 0 && !text::precedes(key, list[0].0) {
        lemma_sorted_len(list.skip(1), key, value);
    }
}

} // verus!
