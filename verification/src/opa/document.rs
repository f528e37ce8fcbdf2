//! Typed policies as the data documents of the policy engine.

use crate::json;
use crate::json::{Json, JsonValue};
use crate::opa::builder;
use crate::opa::builder::{signed_value, unsigned_value, Entries, ObjectBuilder};
use crate::opa::policy::{
    BinaryResolution, EndpointSelector, FilesystemSection, GraphqlOperation, L7QueryMatcher, L7Rule,
    L7Selector, LandlockSection, McpOptions, NetworkBinary, NetworkEndpoint, NetworkMiddleware,
    NetworkPolicyRule, ProcessSection, SandboxPolicy,
};
use crate::text;
use crate::text::{comes_before, same_ignoring_case};
use vstd::prelude::*;

verus! {

broadcast use json::group_json_views;

/// The filesystem document.
pub open spec fn filesystem_json(section: Option<FilesystemSection>) -> Json {
    match section {
        None => Json::Object(
            builder::entry("include_workdir"@, Json::Bool(true)) + builder::entry(
                "read_only"@,
                Json::Array(seq![]),
            ) + builder::entry("read_write"@, Json::Array(seq![])),
        ),
        Some(fs) => Json::Object(
            builder::entry("include_workdir"@, Json::Bool(fs.include_workdir)) + builder::entry(
                "read_only"@,
                builder::text_array(text::texts(fs.read_only@)),
            ) + builder::entry("read_write"@, builder::text_array(text::texts(fs.read_write@))),
        ),
    }
}

/// The Landlock document.
pub open spec fn landlock_json(section: Option<LandlockSection>) -> Json {
    Json::Object(
        builder::entry(
            "compatibility"@,
            Json::Text(
                match section {
                    None => "best_effort"@,
                    Some(landlock) => landlock.compatibility@,
                },
            ),
        ),
    )
}

/// The process document.
pub open spec fn process_json(section: Option<ProcessSection>) -> Json {
    match section {
        None => Json::Object(
            builder::entry("run_as_user"@, Json::Text("sandbox"@)) + builder::entry(
                "run_as_group"@,
                Json::Text("sandbox"@),
            ),
        ),
        Some(process) => Json::Object(
            builder::entry("run_as_user"@, Json::Text(process.run_as_user@)) + builder::entry(
                "run_as_group"@,
                Json::Text(process.run_as_group@),
            ),
        ),
    }
}

fn empty_array() -> (value: JsonValue)
    ensures
        value@ == Json::Array(seq![]),
{
    let items: Vec<JsonValue> = Vec::new();
    assert(json::values(items@) == Seq::<Json>::empty());
    JsonValue::Array(items)
}

fn starting(builder: &mut ObjectBuilder, key: &str, value: JsonValue)
    requires
        old(builder)@.len() == 0,
    ensures
        final(builder)@ == builder::entry(key@, value@),
{
    let ghost before = builder@;
    builder.put(key, value);
    assert(before + builder::entry(key@, value@) == builder::entry(key@, value@));
}

fn filesystem_document(section: &Option<FilesystemSection>) -> (value: JsonValue)
    ensures
        value@ == filesystem_json(*section),
{
    let mut object = ObjectBuilder::new();
    match section {
        None => {
            starting(&mut object, "include_workdir", JsonValue::Bool(true));
            object.put("read_only", empty_array());
            object.put("read_write", empty_array());
        },
        Some(fs) => {
            starting(&mut object, "include_workdir", JsonValue::Bool(fs.include_workdir));
            object.put_texts("read_only", &fs.read_only);
            object.put_texts("read_write", &fs.read_write);
        },
    }
    object.build()
}

fn landlock_document(section: &Option<LandlockSection>) -> (value: JsonValue)
    ensures
        value@ == landlock_json(*section),
{
    let mut object = ObjectBuilder::new();
    let compatibility = match section {
        None => "best_effort".to_string(),
        Some(landlock) => landlock.compatibility.clone(),
    };
    starting(&mut object, "compatibility", JsonValue::Text(compatibility));
    object.build()
}

fn process_document(section: &Option<ProcessSection>) -> (value: JsonValue)
    ensures
        value@ == process_json(*section),
{
    let mut object = ObjectBuilder::new();
    match section {
        None => {
            starting(&mut object, "run_as_user", JsonValue::Text("sandbox".to_string()));
            object.put_text("run_as_group", "sandbox");
        },
        Some(process) => {
            starting(&mut object, "run_as_user", JsonValue::Text(process.run_as_user.clone()));
            object.put_text("run_as_group", process.run_as_group.as_str());
        },
    }
    object.build()
}

/// The document of a matcher.
pub open spec fn matcher_json(matcher: L7QueryMatcher) -> Json {
    Json::Object(
        builder::some_text("glob"@, matcher.glob@) + builder::some_texts(
            "any"@,
            text::texts(matcher.any@),
        ),
    )
}

/// The entries of matchers under their keys.
pub open spec fn matchers_json(matchers: Seq<(String, L7QueryMatcher)>) -> Entries {
    matchers.map_values(|pair: (String, L7QueryMatcher)| (pair.0@, matcher_json(pair.1)))
}

fn matcher_document(matcher: &L7QueryMatcher) -> (value: JsonValue)
    ensures
        value@ == matcher_json(*matcher),
{
    let mut object = ObjectBuilder::new();
    object.put_some_text("glob", matcher.glob.as_str());
    let ghost first = object@;
    assert(first == builder::some_text("glob"@, matcher.glob@));
    object.put_some_texts("any", &matcher.any);
    object.build()
}

/// The entries of matchers under their keys.
pub fn l7_matchers_to_json(matchers: &Vec<(String, L7QueryMatcher)>) -> (object: ObjectBuilder)
    ensures
        object@ == matchers_json(matchers@),
{
    let ghost all = matchers_json(matchers@);
    let mut object = ObjectBuilder::new();
    let mut i: usize = 0;
    assert(object@ == all.take(0));
    while i < matchers.len()
        invariant
            i <= matchers@.len(),
            all == matchers_json(matchers@),
            object@ == all.take(i as int),
        decreases matchers@.len() - i,
    {
        object.put(matchers[i].0.as_str(), matcher_document(&matchers[i].1));
        assert(object@ == all.take(i + 1));
        i += 1;
    }
    assert(all.take(i as int) == all);
    object
}

/// The entries of what a rule selects. Absent selectors are left out, so that
/// typed and authored rules show the same selectors.
pub open spec fn selector_json(selector: L7Selector) -> Entries {
    builder::some_text("method"@, selector.method@) + builder::some_text("path"@, selector.path@)
        + builder::some_text("command"@, selector.command@) + builder::some_text(
        "operation_type"@,
        selector.operation_type@,
    ) + builder::some_text("operation_name"@, selector.operation_name@) + builder::some_texts(
        "fields"@,
        text::texts(selector.fields@),
    ) + builder::some_object("query"@, matchers_json(selector.query@)) + builder::some_object(
        "params"@,
        matchers_json(selector.params@),
    )
}

fn selector_document(selector: &L7Selector) -> (object: ObjectBuilder)
    ensures
        object@ == selector_json(*selector),
{
    let mut object = ObjectBuilder::new();
    object.put_some_text("method", selector.method.as_str());
    assert(object@ == builder::some_text("method"@, selector.method@));
    object.put_some_text("path", selector.path.as_str());
    object.put_some_text("command", selector.command.as_str());
    object.put_some_text("operation_type", selector.operation_type.as_str());
    object.put_some_text("operation_name", selector.operation_name.as_str());
    object.put_some_texts("fields", &selector.fields);
    object.put_some_object("query", l7_matchers_to_json(&selector.query));
    object.put_some_object("params", l7_matchers_to_json(&selector.params));
    object
}

/// The document of an allow rule.
pub open spec fn rule_json(rule: L7Rule) -> Json {
    Json::Object(
        builder::entry(
            "allow"@,
            Json::Object(
                match rule.allow {
                    Some(selector) => selector_json(selector),
                    None => seq![],
                },
            ),
        ),
    )
}

fn rule_document(rule: &L7Rule) -> (value: JsonValue)
    ensures
        value@ == rule_json(*rule),
{
    let allow = match &rule.allow {
        Some(selector) => selector_document(selector),
        None => ObjectBuilder::new(),
    };
    let mut object = ObjectBuilder::new();
    starting(&mut object, "allow", allow.build());
    object.build()
}

/// The documents of allow rules.
pub open spec fn rules_json(rules: Seq<L7Rule>) -> Seq<Json> {
    rules.map_values(|rule: L7Rule| rule_json(rule))
}

fn rules_document(rules: &Vec<L7Rule>) -> (items: Vec<JsonValue>)
    ensures
        json::values(items@) == rules_json(rules@),
{
    let ghost all = rules_json(rules@);
    let mut items: Vec<JsonValue> = Vec::new();
    let mut i: usize = 0;
    while i < rules.len()
        invariant
            i <= rules@.len(),
            all == rules_json(rules@),
            json::values(items@) == all.take(i as int),
        decreases rules@.len() - i,
    {
        let item = rule_document(&rules[i]);
        push_value(&mut items, item);
        assert(json::values(items@) == all.take(i + 1));
        i += 1;
    }
    assert(all.take(i as int) == all);
    items
}

fn push_value(items: &mut Vec<JsonValue>, item: JsonValue)
    ensures
        json::values(final(items)@) == json::values(old(items)@).push(item@),
{
    let ghost before = json::values(items@);
    let ghost model = item@;
    items.push(item);
    assert(json::values(items@) == before.push(model));
}

/// The documents of deny rules.
pub open spec fn deny_rules_json(rules: Seq<L7Selector>) -> Seq<Json> {
    rules.map_values(|rule: L7Selector| Json::Object(selector_json(rule)))
}

fn deny_rules_document(rules: &Vec<L7Selector>) -> (items: Vec<JsonValue>)
    ensures
        json::values(items@) == deny_rules_json(rules@),
{
    let ghost all = deny_rules_json(rules@);
    let mut items: Vec<JsonValue> = Vec::new();
    let mut i: usize = 0;
    while i < rules.len()
        invariant
            i <= rules@.len(),
            all == deny_rules_json(rules@),
            json::values(items@) == all.take(i as int),
        decreases rules@.len() - i,
    {
        let item = selector_document(&rules[i]).build();
        push_value(&mut items, item);
        assert(json::values(items@) == all.take(i + 1));
        i += 1;
    }
    assert(all.take(i as int) == all);
    items
}

/// The ports of an endpoint: its list, or its single port, or none.
pub open spec fn ports_json(endpoint: NetworkEndpoint) -> Json {
    let ports = if endpoint.ports@.len() > 0 {
        endpoint.ports@
    } else if endpoint.port > 0 {
        seq![endpoint.port]
    } else {
        seq![]
    };
    Json::Array(ports.map_values(|port: u32| builder::number(port as int)))
}

fn ports_document(endpoint: &NetworkEndpoint) -> (value: JsonValue)
    ensures
        value@ == ports_json(*endpoint),
{
    let mut items: Vec<JsonValue> = Vec::new();
    if endpoint.ports.len() > 0 {
        let ghost all = endpoint.ports@.map_values(|port: u32| builder::number(port as int));
        let mut i: usize = 0;
        while i < endpoint.ports.len()
            invariant
                i <= endpoint.ports@.len(),
                all == endpoint.ports@.map_values(|port: u32| builder::number(port as int)),
                json::values(items@) == all.take(i as int),
            decreases endpoint.ports@.len() - i,
        {
            let item = unsigned_value(endpoint.ports[i]);
            push_value(&mut items, item);
            assert(json::values(items@) == all.take(i + 1));
            i += 1;
        }
        assert(all.take(i as int) == all);
    } else if endpoint.port > 0 {
        push_value(&mut items, unsigned_value(endpoint.port));
        assert(json::values(items@) == seq![endpoint.port].map_values(
            |port: u32| builder::number(port as int),
        ));
    } else {
        assert(json::values(items@) == Seq::<u32>::empty().map_values(
            |port: u32| builder::number(port as int),
        ));
    }
    JsonValue::Array(items)
}

/// The document of a persisted GraphQL operation.
pub open spec fn operation_json(operation: GraphqlOperation) -> Json {
    Json::Object(
        builder::entry("operation_type"@, Json::Text(operation.operation_type@)) + builder::entry(
            "operation_name"@,
            Json::Text(operation.operation_name@),
        ) + builder::entry("fields"@, builder::text_array(text::texts(operation.fields@))),
    )
}

/// The entries of persisted GraphQL operations under their keys.
pub open spec fn operations_json(list: Seq<(String, GraphqlOperation)>) -> Entries {
    list.map_values(|pair: (String, GraphqlOperation)| (pair.0@, operation_json(pair.1)))
}

fn operation_document(operation: &GraphqlOperation) -> (value: JsonValue)
    ensures
        value@ == operation_json(*operation),
{
    let mut object = ObjectBuilder::new();
    starting(
        &mut object,
        "operation_type",
        JsonValue::Text(operation.operation_type.clone()),
    );
    object.put_text("operation_name", operation.operation_name.as_str());
    object.put_texts("fields", &operation.fields);
    object.build()
}

fn operations_document(list: &Vec<(String, GraphqlOperation)>) -> (object: ObjectBuilder)
    ensures
        object@ == operations_json(list@),
{
    let ghost all = operations_json(list@);
    let mut object = ObjectBuilder::new();
    let mut i: usize = 0;
    assert(object@ == all.take(0));
    while i < list.len()
        invariant
            i <= list@.len(),
            all == operations_json(list@),
            object@ == all.take(i as int),
        decreases list@.len() - i,
    {
        object.put(list[i].0.as_str(), operation_document(&list[i].1));
        assert(object@ == all.take(i + 1));
        i += 1;
    }
    assert(all.take(i as int) == all);
    object
}

/// The entries of the identity of an MCP endpoint.
pub open spec fn identity_json(endpoint: NetworkEndpoint, policy_hash: Seq<char>) -> Entries {
    match endpoint.endpoint_id {
        Some(id) => builder::entry("endpoint_id"@, Json::Text(id@)) + builder::entry(
            "policy_hash"@,
            Json::Text(policy_hash),
        ),
        None => seq![],
    }
}

/// The entry of the provider that a credential is bound to.
pub open spec fn binding_json(provider: Option<String>) -> Entries {
    match provider {
        Some(provider) => builder::entry(
            "credential_binding"@,
            Json::Object(builder::entry("provider"@, Json::Text(provider@))),
        ),
        None => seq![],
    }
}

/// The entries of the MCP options of an endpoint.
pub open spec fn mcp_json(protocol: Seq<char>, mcp: Option<McpOptions>) -> Entries {
    match mcp {
        Some(options) => (if text::lowered(protocol) == text::lowered("mcp"@) {
            builder::entry("mcp_versions"@, builder::text_array(text::texts(options.versions@)))
        } else {
            seq![]
        }) + builder::some_bool("mcp_strict_tool_names"@, options.strict_tool_names)
            + builder::some_bool(
            "mcp_allow_all_known_mcp_methods"@,
            options.allow_all_known_mcp_methods,
        ),
        None => seq![],
    }
}

/// The entries of an endpoint that say what is matched.
pub open spec fn endpoint_match_json(e: NetworkEndpoint) -> Entries {
    builder::entry("host"@, Json::Text(e.host@)) + builder::entry("ports"@, ports_json(e))
        + builder::some_text("path"@, e.path@) + builder::some_text("protocol"@, e.protocol@)
        + builder::some_text("tls"@, e.tls@) + builder::some_text("enforcement"@, e.enforcement@)
        + builder::some_text("access"@, e.access@) + builder::some_array(
        "rules"@,
        rules_json(e.rules@),
    ) + builder::some_texts("allowed_ips"@, text::texts(e.allowed_ips@)) + builder::some_flag(
        "advisor_proposed"@,
        e.advisor_proposed,
    ) + builder::some_array("deny_rules"@, deny_rules_json(e.deny_rules@))
}

/// The entries of an endpoint that say how credentials are treated.
pub open spec fn endpoint_credential_json(e: NetworkEndpoint, policy_hash: Seq<char>) -> Entries {
    builder::some_flag("allow_encoded_slash"@, e.allow_encoded_slash) + builder::some_flag(
        "websocket_credential_rewrite"@,
        e.websocket_credential_rewrite,
    ) + builder::some_flag("request_body_credential_rewrite"@, e.request_body_credential_rewrite)
        + builder::some_flag("allow_uninspected_credentials"@, e.allow_uninspected_credentials)
        + builder::some_flag("provider_credentialed"@, e.provider_credentialed) + identity_json(
        e,
        policy_hash,
    ) + builder::some_text("credential_signing"@, e.credential_signing@) + builder::some_text(
        "signing_service"@,
        e.signing_service@,
    ) + builder::some_text("signing_region"@, e.signing_region@) + binding_json(
        e.credential_provider,
    )
}

/// The entries of an endpoint that belong to one protocol.
pub open spec fn endpoint_protocol_json(e: NetworkEndpoint) -> Entries {
    builder::some_text("persisted_queries"@, e.persisted_queries@) + builder::some_object(
        "graphql_persisted_queries"@,
        operations_json(e.graphql_persisted_queries@),
    ) + builder::some_number("graphql_max_body_bytes"@, e.graphql_max_body_bytes as int)
        + builder::some_number("json_rpc_max_body_bytes"@, e.json_rpc_max_body_bytes as int)
        + mcp_json(e.protocol@, e.mcp)
}

/// The document of an endpoint.
pub open spec fn endpoint_json(e: NetworkEndpoint, policy_hash: Seq<char>) -> Json {
    Json::Object(
        endpoint_match_json(e) + endpoint_credential_json(e, policy_hash) + endpoint_protocol_json(
            e,
        ),
    )
}

fn put_match(object: &mut ObjectBuilder, e: &NetworkEndpoint)
    requires
        old(object)@.len() == 0,
    ensures
        final(object)@ == endpoint_match_json(*e),
{
    starting(object, "host", JsonValue::Text(e.host.clone()));
    object.put("ports", ports_document(e));
    object.put_some_text("path", e.path.as_str());
    object.put_some_text("protocol", e.protocol.as_str());
    object.put_some_text("tls", e.tls.as_str());
    object.put_some_text("enforcement", e.enforcement.as_str());
    object.put_some_text("access", e.access.as_str());
    object.put_some_array("rules", rules_document(&e.rules));
    object.put_some_texts("allowed_ips", &e.allowed_ips);
    object.put_some_flag("advisor_proposed", e.advisor_proposed);
    object.put_some_array("deny_rules", deny_rules_document(&e.deny_rules));
}

fn put_identity(object: &mut ObjectBuilder, e: &NetworkEndpoint, policy_hash: &str)
    ensures
        final(object)@ == old(object)@ + identity_json(*e, policy_hash@),
{
    let ghost before = object@;
    match &e.endpoint_id {
        Some(id) => {
            object.put_text("endpoint_id", id.as_str());
            object.put_text("policy_hash", policy_hash);
            assert(object@ == before + (builder::entry("endpoint_id"@, Json::Text(id@))
                + builder::entry("policy_hash"@, Json::Text(policy_hash@))));
        },
        None => {
            assert(before == before + Seq::<(Seq<char>, Json)>::empty());
        },
    }
}

fn put_binding(object: &mut ObjectBuilder, provider: &Option<String>)
    ensures
        final(object)@ == old(object)@ + binding_json(*provider),
{
    let ghost before = object@;
    match provider {
        Some(provider) => {
            let mut binding = ObjectBuilder::new();
            starting(&mut binding, "provider", JsonValue::Text(provider.clone()));
            object.put("credential_binding", binding.build());
        },
        None => {
            assert(before == before + Seq::<(Seq<char>, Json)>::empty());
        },
    }
}

fn credential_document(e: &NetworkEndpoint, policy_hash: &str) -> (object: ObjectBuilder)
    ensures
        object@ == endpoint_credential_json(*e, policy_hash@),
{
    let mut object = ObjectBuilder::new();
    object.put_some_flag("allow_encoded_slash", e.allow_encoded_slash);
    assert(object@ == builder::some_flag("allow_encoded_slash"@, e.allow_encoded_slash));
    object.put_some_flag("websocket_credential_rewrite", e.websocket_credential_rewrite);
    object.put_some_flag("request_body_credential_rewrite", e.request_body_credential_rewrite);
    object.put_some_flag("allow_uninspected_credentials", e.allow_uninspected_credentials);
    object.put_some_flag("provider_credentialed", e.provider_credentialed);
    put_identity(&mut object, e, policy_hash);
    object.put_some_text("credential_signing", e.credential_signing.as_str());
    object.put_some_text("signing_service", e.signing_service.as_str());
    object.put_some_text("signing_region", e.signing_region.as_str());
    put_binding(&mut object, &e.credential_provider);
    object
}

fn put_mcp(object: &mut ObjectBuilder, e: &NetworkEndpoint)
    ensures
        final(object)@ == old(object)@ + mcp_json(e.protocol@, e.mcp),
{
    let ghost before = object@;
    match &e.mcp {
        Some(options) => {
            if same_ignoring_case(e.protocol.as_str(), "mcp") {
                object.put_texts("mcp_versions", &options.versions);
            } else {
                assert(before == before + Seq::<(Seq<char>, Json)>::empty());
            }
            object.put_some_bool("mcp_strict_tool_names", options.strict_tool_names);
            object.put_some_bool(
                "mcp_allow_all_known_mcp_methods",
                options.allow_all_known_mcp_methods,
            );
            assert(object@ == before + mcp_json(e.protocol@, e.mcp));
        },
        None => {
            assert(before == before + Seq::<(Seq<char>, Json)>::empty());
        },
    }
}

fn protocol_document(e: &NetworkEndpoint) -> (object: ObjectBuilder)
    ensures
        object@ == endpoint_protocol_json(*e),
{
    let mut object = ObjectBuilder::new();
    object.put_some_text("persisted_queries", e.persisted_queries.as_str());
    assert(object@ == builder::some_text("persisted_queries"@, e.persisted_queries@));
    object.put_some_object(
        "graphql_persisted_queries",
        operations_document(&e.graphql_persisted_queries),
    );
    object.put_some_number("graphql_max_body_bytes", e.graphql_max_body_bytes);
    object.put_some_number("json_rpc_max_body_bytes", e.json_rpc_max_body_bytes);
    put_mcp(&mut object, e);
    object
}

/// The document of an endpoint.
pub fn endpoint_document(e: &NetworkEndpoint, policy_hash: &str) -> (value: JsonValue)
    ensures
        value@ == endpoint_json(*e, policy_hash@),
{
    let mut object = ObjectBuilder::new();
    put_match(&mut object, e);
    object.append(credential_document(e, policy_hash));
    object.append(protocol_document(e));
    object.build()
}

/// The documents of endpoints.
pub open spec fn endpoints_json(list: Seq<NetworkEndpoint>, policy_hash: Seq<char>) -> Seq<Json> {
    list.map_values(|e: NetworkEndpoint| endpoint_json(e, policy_hash))
}

fn endpoints_document(list: &Vec<NetworkEndpoint>, policy_hash: &str) -> (value: JsonValue)
    ensures
        value@ == Json::Array(endpoints_json(list@, policy_hash@)),
{
    let ghost all = endpoints_json(list@, policy_hash@);
    let mut items: Vec<JsonValue> = Vec::new();
    let mut i: usize = 0;
    while i < list.len()
        invariant
            i <= list@.len(),
            all == endpoints_json(list@, policy_hash@),
            json::values(items@) == all.take(i as int),
        decreases list@.len() - i,
    {
        let item = endpoint_document(&list[i], policy_hash);
        push_value(&mut items, item);
        assert(json::values(items@) == all.take(i + 1));
        i += 1;
    }
    assert(all.take(i as int) == all);
    JsonValue::Array(items)
}

/// The document of a binary path.
pub open spec fn binary_json(path: Seq<char>) -> Json {
    Json::Object(builder::entry("path"@, Json::Text(path)))
}

/// The documents of a binary: its path, and where that is a symlink its target
/// besides.
pub open spec fn binary_entries(binary: NetworkBinary) -> Seq<Json> {
    match binary.resolution {
        BinaryResolution::Resolved(target) => seq![binary_json(binary.path@), binary_json(target@)],
        _ => seq![binary_json(binary.path@)],
    }
}

/// The documents of binaries.
pub open spec fn binaries_json(list: Seq<NetworkBinary>) -> Seq<Json>
    decreases list.len(),
{
    if list.len() == 0 {
        seq![]
    } else {
        binaries_json(list.drop_last()) + binary_entries(list.last())
    }
}

fn binary_document(path: &str) -> (value: JsonValue)
    ensures
        value@ == binary_json(path@),
{
    let mut object = ObjectBuilder::new();
    starting(&mut object, "path", JsonValue::Text(path.to_string()));
    object.build()
}

fn binaries_document(list: &Vec<NetworkBinary>) -> (value: JsonValue)
    ensures
        value@ == Json::Array(binaries_json(list@)),
{
    let mut items: Vec<JsonValue> = Vec::new();
    let mut i: usize = 0;
    assert(json::values(items@) == binaries_json(list@.take(0)));
    while i < list.len()
        invariant
            i <= list@.len(),
            json::values(items@) == binaries_json(list@.take(i as int)),
        decreases list@.len() - i,
    {
        assert(list@.take(i + 1).drop_last() == list@.take(i as int));
        assert(list@.take(i + 1).last() == list@[i as int]);
        let ghost before = json::values(items@);
        push_value(&mut items, binary_document(list[i].path.as_str()));
        if let BinaryResolution::Resolved(target) = &list[i].resolution {
            push_value(&mut items, binary_document(target.as_str()));
        }
        assert(json::values(items@) == before + binary_entries(list@[i as int]));
        i += 1;
    }
    assert(list@.take(i as int) == list@);
    JsonValue::Array(items)
}

/// The document of a network policy.
pub open spec fn policy_json(rule: NetworkPolicyRule, policy_hash: Seq<char>) -> Json {
    Json::Object(
        builder::entry("name"@, Json::Text(rule.name@)) + builder::entry(
            "endpoints"@,
            Json::Array(endpoints_json(rule.endpoints@, policy_hash)),
        ) + builder::entry("binaries"@, Json::Array(binaries_json(rule.binaries@))),
    )
}

/// The documents of network policies under their keys.
pub open spec fn policies_json(
    list: Seq<(String, NetworkPolicyRule)>,
    policy_hash: Seq<char>,
) -> Entries {
    list.map_values(
        |pair: (String, NetworkPolicyRule)| (pair.0@, policy_json(pair.1, policy_hash)),
    )
}

fn policy_document(rule: &NetworkPolicyRule, policy_hash: &str) -> (value: JsonValue)
    ensures
        value@ == policy_json(*rule, policy_hash@),
{
    let mut object = ObjectBuilder::new();
    starting(&mut object, "name", JsonValue::Text(rule.name.clone()));
    object.put("endpoints", endpoints_document(&rule.endpoints, policy_hash));
    object.put("binaries", binaries_document(&rule.binaries));
    object.build()
}

fn policies_document(list: &Vec<(String, NetworkPolicyRule)>, policy_hash: &str) -> (object:
    ObjectBuilder)
    ensures
        object@ == policies_json(list@, policy_hash@),
{
    let ghost all = policies_json(list@, policy_hash@);
    let mut object = ObjectBuilder::new();
    let mut i: usize = 0;
    assert(object@ == all.take(0));
    while i < list.len()
        invariant
            i <= list@.len(),
            all == policies_json(list@, policy_hash@),
            object@ == all.take(i as int),
        decreases list@.len() - i,
    {
        object.put(list[i].0.as_str(), policy_document(&list[i].1, policy_hash));
        assert(object@ == all.take(i + 1));
        i += 1;
    }
    assert(all.take(i as int) == all);
    object
}

/// The entry of the hosts that a middleware is selected for.
pub open spec fn endpoint_selector_json(selector: Option<EndpointSelector>) -> Entries {
    match selector {
        Some(selector) => builder::entry(
            "endpoints"@,
            Json::Object(
                builder::some_texts("include"@, text::texts(selector.included@))
                    + builder::some_texts("exclude"@, text::texts(selector.excluded@)),
            ),
        ),
        None => seq![],
    }
}

/// The entry of the configuration of a middleware.
pub open spec fn config_json(config: Option<JsonValue>) -> Entries {
    match config {
        Some(value) => builder::entry("config"@, value@),
        None => seq![],
    }
}

/// The document of a middleware.
pub open spec fn middleware_json(middleware: NetworkMiddleware) -> Json {
    Json::Object(
        builder::entry("middleware"@, Json::Text(middleware.middleware@)) + builder::entry(
            "order"@,
            builder::number(middleware.order as int),
        ) + builder::some_text("name"@, middleware.name@) + config_json(middleware.config)
            + builder::some_text("on_error"@, middleware.on_error@) + endpoint_selector_json(
            middleware.endpoints,
        ),
    )
}

fn middleware_document(middleware: &NetworkMiddleware) -> (value: JsonValue)
    ensures
        value@ == middleware_json(*middleware),
{
    let mut object = ObjectBuilder::new();
    starting(&mut object, "middleware", JsonValue::Text(middleware.middleware.clone()));
    object.put("order", signed_value(middleware.order));
    object.put_some_text("name", middleware.name.as_str());
    let ghost before = object@;
    match &middleware.config {
        Some(value) => object.put("config", value.copy()),
        None => {
            assert(before == before + Seq::<(Seq<char>, Json)>::empty());
        },
    }
    object.put_some_text("on_error", middleware.on_error.as_str());
    let ghost most = object@;
    match &middleware.endpoints {
        Some(selector) => {
            let mut hosts = ObjectBuilder::new();
            hosts.put_some_texts("include", &selector.included);
            assert(hosts@ == builder::some_texts("include"@, text::texts(selector.included@)));
            hosts.put_some_texts("exclude", &selector.excluded);
            object.put("endpoints", hosts.build());
        },
        None => {
            assert(most == most + Seq::<(Seq<char>, Json)>::empty());
        },
    }
    object.build()
}

/// Entries in the order of their keys with one more put in its place.
pub open spec fn with_sorted(list: Entries, key: Seq<char>, value: Json) -> Entries
    decreases list.len(),
{
    if list.len() == 0 {
        seq![(key, value)]
    } else if text::precedes(key, list[0].0) {
        seq![(key, value)] + list
    } else {
        seq![list[0]] + with_sorted(list.skip(1), key, value)
    }
}

/// The documents of middlewares under their names, in the order of the names.
pub open spec fn middlewares_json(list: Seq<(String, NetworkMiddleware)>) -> Entries
    decreases list.len(),
{
    if list.len() == 0 {
        seq![]
    } else {
        with_sorted(
            middlewares_json(list.drop_last()),
            list.last().0@,
            middleware_json(list.last().1),
        )
    }
}

fn insert_sorted(list: &mut Vec<(String, JsonValue)>, key: &str, value: JsonValue)
    ensures
        json::entries(final(list)@) == with_sorted(json::entries(old(list)@), key@, value@),
{
    let ghost all = json::entries(list@);
    let ghost model = value@;
    let mut i: usize = 0;
    assert(all.skip(0) == all);
    assert(all.take(0) + with_sorted(all.skip(0), key@, model) == with_sorted(all, key@, model));
    while i < list.len()
        invariant
            i <= list@.len(),
            model == value@,
            all == json::entries(list@),
            all == json::entries(old(list)@),
            with_sorted(all, key@, model) == all.take(i as int) + with_sorted(
                all.skip(i as int),
                key@,
                model,
            ),
        decreases list@.len() - i,
    {
        let ghost rest = all.skip(i as int);
        assert(rest[0] == (list@[i as int].0@, list@[i as int].1@));
        assert(rest.skip(1) == all.skip(i + 1));
        if comes_before(key, list[i].0.as_str()) {
            list.insert(i, (key.to_string(), value));
            assert(json::entries(list@) == all.take(i as int) + (seq![(key@, model)] + rest));
            return ;
        }
        assert(all.take(i as int) + (seq![rest[0]] + with_sorted(rest.skip(1), key@, model))
            == all.take(i + 1) + with_sorted(all.skip(i + 1), key@, model));
        i += 1;
    }
    assert(all.take(i as int) == all);
    list.push((key.to_string(), value));
    assert(json::entries(list@) == all + seq![(key@, model)]);
}

fn middlewares_document(list: &Vec<(String, NetworkMiddleware)>) -> (value: JsonValue)
    ensures
        value@ == Json::Object(middlewares_json(list@)),
{
    let mut sorted: Vec<(String, JsonValue)> = Vec::new();
    let mut i: usize = 0;
    assert(json::entries(sorted@) == middlewares_json(list@.take(0)));
    while i < list.len()
        invariant
            i <= list@.len(),
            json::entries(sorted@) == middlewares_json(list@.take(i as int)),
        decreases list@.len() - i,
    {
        assert(list@.take(i + 1).drop_last() == list@.take(i as int));
        assert(list@.take(i + 1).last() == list@[i as int]);
        insert_sorted(&mut sorted, list[i].0.as_str(), middleware_document(&list[i].1));
        i += 1;
    }
    assert(list@.take(i as int) == list@);
    JsonValue::Object(sorted)
}

/// The data document of a typed policy.
pub open spec fn policy_data(policy: SandboxPolicy) -> Json {
    Json::Object(
        builder::entry("filesystem_policy"@, filesystem_json(policy.filesystem)) + builder::entry(
            "landlock"@,
            landlock_json(policy.landlock),
        ) + builder::entry("process"@, process_json(policy.process)) + builder::entry(
            "network_policies"@,
            Json::Object(policies_json(policy.network_policies@, policy.policy_hash@)),
        ) + builder::entry(
            "network_middlewares"@,
            Json::Object(middlewares_json(policy.network_middlewares@)),
        ),
    )
}

/// Converts a typed policy to the data document of the policy engine, whose
/// rules refer to its top-level keys.
pub fn proto_to_opa_data_json(policy: &SandboxPolicy) -> (value: JsonValue)
    ensures
        value@ == policy_data(*policy),
{
    let mut object = ObjectBuilder::new();
    starting(&mut object, "filesystem_policy", filesystem_document(&policy.filesystem));
    object.put("landlock", landlock_document(&policy.landlock));
    object.put("process", process_document(&policy.process));
    object.put(
        "network_policies",
        policies_document(&policy.network_policies, policy.policy_hash.as_str()).build(),
    );
    object.put("network_middlewares", middlewares_document(&policy.network_middlewares));
    object.build()
}

} // verus!
