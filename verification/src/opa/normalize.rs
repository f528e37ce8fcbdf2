//! Normal forms of policy data that the engine's rules rely on.

use crate::json;
use crate::json::{Json, JsonNumber, JsonValue, NumberModel};
use crate::json_access::{position_of, remove_entry, set_entry};
use crate::l7::protocol::L7Protocol;
use crate::opa::builder;
use crate::opa::builder::{Entries, ObjectBuilder};
use crate::text;
use crate::text::{chars_of, same, same_ignoring_case};
use vstd::prelude::*;

verus! {

broadcast use json::group_json_views;

/// The entries of a list of entries, copied.
pub fn copy_entries(list: &Vec<(String, JsonValue)>) -> (r: Vec<(String, JsonValue)>)
    ensures
        json::entries(r@) == json::entries(list@),
{
    let ghost all = json::entries(list@);
    let mut r: Vec<(String, JsonValue)> = Vec::new();
    let mut i: usize = 0;
    while i < list.len()
        invariant
            i <= list@.len(),
            all == json::entries(list@),
            json::entries(r@) == all.take(i as int),
        decreases list@.len() - i,
    {
        let pair = (list[i].0.clone(), list[i].1.copy());
        let ghost model = (pair.0@, pair.1@);
        let ghost before = json::entries(r@);
        r.push(pair);
        assert(json::entries(r@) == before.push(model));
        assert(all[i as int] == model);
        assert(all.take(i + 1) == before.push(model));
        i += 1;
    }
    assert(all.take(i as int) == all);
    r
}

/// Policy data with the runtime's identity requirement.
pub open spec fn with_runtime(data: Json, require_binary_identity: bool) -> Json {
    match data {
        Json::Object(object) => Json::Object(
            json::with_entry(
                object,
                "runtime"@,
                Json::Object(
                    builder::entry("require_binary_identity"@, Json::Bool(require_binary_identity)),
                ),
            ),
        ),
        _ => data,
    }
}

/// Puts the runtime's identity requirement into policy data.
pub fn inject_runtime_policy_data(data: JsonValue, require_binary_identity: bool) -> (r: JsonValue)
    ensures
        r@ == with_runtime(data@, require_binary_identity),
{
    match data {
        JsonValue::Object(list) => {
            let mut list = list;
            let mut runtime = ObjectBuilder::new();
            runtime.put("require_binary_identity", JsonValue::Bool(require_binary_identity));
            assert(runtime@ == builder::entry(
                "require_binary_identity"@,
                Json::Bool(require_binary_identity),
            ));
            set_entry(&mut list, "runtime", runtime.build());
            JsonValue::Object(list)
        },
        other => other,
    }
}

/// A pass over the endpoints of policy data.
#[derive(Debug, Clone, Copy, PartialEq, Eq, Structural)]
pub enum EndpointPass {
    /// Canonical protocol names.
    Protocols,
    /// A list of ports in place of a single port.
    Ports,
    /// Rule aliases and matchers in their runtime form.
    RuleAliases,
}

/// The canonical name of a protocol, if it is one.
pub open spec fn canonical_protocol(protocol: Seq<char>) -> Option<Seq<char>> {
    if text::lowered(protocol) == text::lowered("tcp"@) {
        Some("tcp"@)
    } else {
        match L7Protocol::named(protocol) {
            Some(known) => Some(known.name()),
            None => None,
        }
    }
}

/// An endpoint with its protocol in canonical spelling.
pub open spec fn protocol_normalized(endpoint: Entries) -> Entries {
    match json::lookup(endpoint, "protocol"@) {
        Some(Json::Text(protocol)) => match canonical_protocol(protocol) {
            Some(canonical) => json::with_entry(endpoint, "protocol"@, Json::Text(canonical)),
            None => endpoint,
        },
        _ => endpoint,
    }
}

/// The number that a value is, if it is one from zero up to `u64::MAX`.
pub open spec fn as_u64(value: Option<Json>) -> Option<int> {
    match value {
        Some(Json::Number(NumberModel::Integer(n))) => if 0 <= n <= u64::MAX {
            Some(n)
        } else {
            None
        },
        _ => None,
    }
}

/// Whether an endpoint has a list of ports that is not empty.
pub open spec fn has_ports(endpoint: Entries) -> bool {
    json::lookup(endpoint, "ports"@) matches Some(Json::Array(ports)) && ports.len() > 0
}

/// An endpoint with a list of ports and no single port.
pub open spec fn ports_normalized(endpoint: Entries) -> Entries {
    let promoted = if has_ports(endpoint) {
        endpoint
    } else {
        match as_u64(json::lookup(endpoint, "port"@)) {
            Some(port) => if port > 0 {
                json::with_entry(
                    endpoint,
                    "ports"@,
                    Json::Array(seq![builder::number(port)]),
                )
            } else {
                endpoint
            },
            None => endpoint,
        }
    };
    json::without_entry(promoted, "port"@)
}

/// A matcher leaf in runtime form. An empty text may match an empty value,
/// which an empty glob never does, so it stays as it is.
pub open spec fn matcher_normalized(matcher: Json) -> Json {
    match matcher {
        Json::Text(glob) => if glob.len() > 0 {
            Json::Object(builder::entry("glob"@, matcher))
        } else {
            matcher
        },
        _ => matcher,
    }
}

/// Matchers in runtime form.
pub open spec fn matchers_normalized(matchers: Entries) -> Entries {
    matchers.map_values(|pair: (Seq<char>, Json)| (pair.0, matcher_normalized(pair.1)))
}

/// A rule with the matchers of one field in runtime form.
pub open spec fn matcher_field_normalized(rule: Entries, field: Seq<char>) -> Entries {
    match json::lookup(rule, field) {
        Some(Json::Object(matchers)) => json::with_entry(
            rule,
            field,
            Json::Object(matchers_normalized(matchers)),
        ),
        _ => rule,
    }
}

/// Whether a value is there and not null.
pub open spec fn is_set(value: Option<Json>) -> bool {
    value matches Some(v) && !(v is Null)
}

/// The params of a rule, or an empty object.
pub open spec fn params_or_empty(rule: Entries) -> Json {
    match json::lookup(rule, "params"@) {
        Some(params) => params,
        None => Json::Object(seq![]),
    }
}

/// An object with a value under a key, unless the key is there.
pub open spec fn with_default(object: Entries, key: Seq<char>, value: Json) -> Entries {
    if json::lookup(object, key) is Some {
        object
    } else {
        json::with_entry(object, key, value)
    }
}

/// A rule whose tool alias has moved into its params, and whether the rule
/// selects a tool.
pub open spec fn tool_moved(rule: Entries) -> (Entries, bool) {
    let selects = match json::lookup(rule, "params"@) {
        Some(Json::Object(params)) => is_set(json::lookup(params, "name"@)),
        _ => false,
    };
    let bare = json::without_entry(rule, "tool"@);
    match json::lookup(rule, "tool"@) {
        Some(tool) => if tool is Null {
            (bare, selects)
        } else {
            match params_or_empty(bare) {
                Json::Object(params) => (
                    json::with_entry(
                        bare,
                        "params"@,
                        Json::Object(with_default(params, "name"@, tool)),
                    ),
                    true,
                ),
                _ => (bare, selects),
            }
        },
        None => (bare, selects),
    }
}

/// Whether a rule names no method.
pub open spec fn lacks_method(rule: Entries) -> bool {
    match json::lookup(rule, "method"@) {
        Some(Json::Text(method)) => method.len() == 0,
        _ => true,
    }
}

/// An MCP rule whose tool alias has moved and whose missing method is filled
/// in where all known methods are allowed.
pub open spec fn mcp_rule_normalized(rule: Entries, allow_all_known: bool) -> Entries {
    let (moved, selects) = tool_moved(rule);
    if allow_all_known && lacks_method(moved) {
        json::with_entry(
            moved,
            "method"@,
            Json::Text(
                if selects {
                    "tools/call"@
                } else {
                    "*"@
                },
            ),
        )
    } else {
        moved
    }
}

/// A rule in runtime form. Tool aliases move into the params before matchers
/// are normalized, so that both authored forms give the same result.
pub open spec fn rule_normalized(
    rule: Entries,
    protocol: Seq<char>,
    allow_all_known: bool,
) -> Entries {
    let start = if protocol == "mcp"@ {
        mcp_rule_normalized(rule, allow_all_known)
    } else {
        rule
    };
    matcher_field_normalized(matcher_field_normalized(start, "query"@), "params"@)
}

/// An allow rule in runtime form: its `allow` object, or itself without one.
pub open spec fn allow_rule_normalized(
    rule: Json,
    protocol: Seq<char>,
    allow_all_known: bool,
) -> Json {
    match rule {
        Json::Object(object) => match json::lookup(object, "allow"@) {
            Some(Json::Object(allow)) => Json::Object(
                json::with_entry(
                    object,
                    "allow"@,
                    Json::Object(rule_normalized(allow, protocol, allow_all_known)),
                ),
            ),
            _ => Json::Object(rule_normalized(object, protocol, allow_all_known)),
        },
        _ => rule,
    }
}

/// A deny rule in runtime form.
pub open spec fn deny_rule_normalized(
    rule: Json,
    protocol: Seq<char>,
    allow_all_known: bool,
) -> Json {
    match rule {
        Json::Object(object) => Json::Object(rule_normalized(object, protocol, allow_all_known)),
        _ => rule,
    }
}

/// The protocol of an endpoint, or an empty text.
pub open spec fn protocol_of(endpoint: Entries) -> Seq<char> {
    match json::lookup(endpoint, "protocol"@) {
        Some(Json::Text(protocol)) => protocol,
        _ => seq![],
    }
}

/// Whether an endpoint allows all known MCP methods.
pub open spec fn allows_all_known(endpoint: Entries) -> bool {
    json::lookup(endpoint, "mcp_allow_all_known_mcp_methods"@) == Some(Json::Bool(true))
}

/// Rules in runtime form.
pub open spec fn normalized_rules(
    rules: Seq<Json>,
    deny: bool,
    protocol: Seq<char>,
    allow_all_known: bool,
) -> Seq<Json> {
    rules.map_values(
        |rule: Json|
            if deny {
                deny_rule_normalized(rule, protocol, allow_all_known)
            } else {
                allow_rule_normalized(rule, protocol, allow_all_known)
            },
    )
}

/// An endpoint with the rules under one key in runtime form.
pub open spec fn rule_list_normalized(
    endpoint: Entries,
    key: Seq<char>,
    deny: bool,
    protocol: Seq<char>,
    allow_all_known: bool,
) -> Entries {
    match json::lookup(endpoint, key) {
        Some(Json::Array(rules)) => json::with_entry(
            endpoint,
            key,
            Json::Array(normalized_rules(rules, deny, protocol, allow_all_known)),
        ),
        _ => endpoint,
    }
}

/// An endpoint with its rules in runtime form.
pub open spec fn rules_normalized(endpoint: Entries) -> Entries {
    let protocol = protocol_of(endpoint);
    let all = allows_all_known(endpoint);
    rule_list_normalized(
        rule_list_normalized(endpoint, "rules"@, false, protocol, all),
        "deny_rules"@,
        true,
        protocol,
        all,
    )
}

/// What a pass makes of an endpoint.
pub open spec fn endpoint_passed(endpoint: Json, pass: EndpointPass) -> Json {
    match endpoint {
        Json::Object(object) => Json::Object(
            match pass {
                EndpointPass::Protocols => protocol_normalized(object),
                EndpointPass::Ports => ports_normalized(object),
                EndpointPass::RuleAliases => rules_normalized(object),
            },
        ),
        _ => endpoint,
    }
}

/// What a pass makes of a network policy.
pub open spec fn policy_passed(policy: Json, pass: EndpointPass) -> Json {
    match policy {
        Json::Object(object) => match json::lookup(object, "endpoints"@) {
            Some(Json::Array(endpoints)) => Json::Object(
                json::with_entry(
                    object,
                    "endpoints"@,
                    Json::Array(endpoints.map_values(|e: Json| endpoint_passed(e, pass))),
                ),
            ),
            _ => policy,
        },
        _ => policy,
    }
}

/// What a pass makes of policy data.
pub open spec fn data_passed(data: Json, pass: EndpointPass) -> Json {
    match data {
        Json::Object(object) => match json::lookup(object, "network_policies"@) {
            Some(Json::Object(policies)) => Json::Object(
                json::with_entry(
                    object,
                    "network_policies"@,
                    Json::Object(
                        policies.map_values(
                            |pair: (Seq<char>, Json)| (pair.0, policy_passed(pair.1, pass)),
                        ),
                    ),
                ),
            ),
            _ => data,
        },
        _ => data,
    }
}

fn normalize_protocol(endpoint: &mut Vec<(String, JsonValue)>)
    ensures
        json::entries(final(endpoint)@) == protocol_normalized(json::entries(old(endpoint)@)),
{
    let at = position_of(endpoint, "protocol");
    if at >= endpoint.len() {
        return ;
    }
    assert(json::entries(endpoint@)[at as int].1 == endpoint@[at as int].1@);
    let canonical = match &endpoint[at].1 {
        JsonValue::Text(protocol) => {
            if same_ignoring_case(protocol.as_str(), "tcp") {
                Some("tcp")
            } else {
                match L7Protocol::parse(protocol.as_str()) {
                    Some(known) => Some(known.as_str()),
                    None => None,
                }
            }
        },
        _ => None,
    };
    if let Some(name) = canonical {
        set_entry(endpoint, "protocol", JsonValue::Text(name.to_string()));
    }
}

fn u64_of(value: Option<&JsonValue>) -> (r: Option<u64>)
    ensures
        match r {
            Some(n) => value is Some && as_u64(Some(value->Some_0@)) == Some(n as int),
            None => value is Some ==> as_u64(Some(value->Some_0@)) is None,
        },
{
    match value {
        Some(JsonValue::Number(JsonNumber::Unsigned(n))) => Some(*n),
        Some(JsonValue::Number(JsonNumber::Negative(n))) => if *n >= 0 {
            Some(*n as u64)
        } else {
            None
        },
        _ => None,
    }
}

/// Finds the value under a key.
pub fn find_value<'a>(list: &'a Vec<(String, JsonValue)>, key: &str) -> (r: Option<&'a JsonValue>)
    ensures
        match r {
            Some(value) => json::lookup(json::entries(list@), key@) == Some(value@),
            None => json::lookup(json::entries(list@), key@) is None,
        },
{
    let at = position_of(list, key);
    if at < list.len() {
        assert(json::entries(list@)[at as int].1 == list@[at as int].1@);
        Some(&list[at].1)
    } else {
        None
    }
}

fn normalize_ports(endpoint: &mut Vec<(String, JsonValue)>)
    ensures
        json::entries(final(endpoint)@) == ports_normalized(json::entries(old(endpoint)@)),
{
    let has_list = match find_value(endpoint, "ports") {
        Some(JsonValue::Array(ports)) => {
            assert(json::values(ports@).len() == ports@.len());
            ports.len() > 0
        },
        _ => false,
    };
    assert(has_list == has_ports(json::entries(endpoint@)));
    if !has_list {
        if let Some(port) = u64_of(find_value(endpoint, "port")) {
            if port > 0 {
                let mut ports: Vec<JsonValue> = Vec::new();
                ports.push(JsonValue::Number(JsonNumber::Unsigned(port)));
                assert(json::values(ports@) == seq![builder::number(port as int)]);
                set_entry(endpoint, "ports", JsonValue::Array(ports));
            }
        }
    }
    let _removed = remove_entry(endpoint, "port");
}

fn normalize_matchers(matchers: &Vec<(String, JsonValue)>) -> (r: Vec<(String, JsonValue)>)
    ensures
        json::entries(r@) == matchers_normalized(json::entries(matchers@)),
{
    let ghost all = matchers_normalized(json::entries(matchers@));
    let mut r: Vec<(String, JsonValue)> = Vec::new();
    let mut i: usize = 0;
    while i < matchers.len()
        invariant
            i <= matchers@.len(),
            all == matchers_normalized(json::entries(matchers@)),
            json::entries(r@) == all.take(i as int),
        decreases matchers@.len() - i,
    {
        let value = match &matchers[i].1 {
            JsonValue::Text(glob) => if chars_of(glob.as_str()).len() > 0 {
                let mut object = ObjectBuilder::new();
                object.put_text("glob", glob.as_str());
                assert(object@ == builder::entry("glob"@, Json::Text(glob@)));
                object.build()
            } else {
                JsonValue::Text(glob.clone())
            },
            other => other.copy(),
        };
        let pair = (matchers[i].0.clone(), value);
        let ghost model = (pair.0@, pair.1@);
        let ghost before = json::entries(r@);
        r.push(pair);
        assert(json::entries(r@) == before.push(model));
        assert(json::entries(matchers@)[i as int] == (matchers@[i as int].0@, matchers@[i as int].1@));
        assert(all[i as int] == model);
        assert(all.take(i + 1) == before.push(model));
        i += 1;
    }
    assert(all.take(i as int) == all);
    r
}

/// Brings the matchers of one field of a rule into runtime form. Explicit
/// `glob` and `any` objects stay as they are.
pub fn normalize_l7_matcher_map(rule: &mut Vec<(String, JsonValue)>, field: &str)
    ensures
        json::entries(final(rule)@) == matcher_field_normalized(
            json::entries(old(rule)@),
            field@,
        ),
{
    let normalized = match find_value(rule, field) {
        Some(JsonValue::Object(matchers)) => normalize_matchers(matchers),
        _ => {
            return ;
        },
    };
    set_entry(rule, field, JsonValue::Object(normalized));
}

fn tool_selected(rule: &Vec<(String, JsonValue)>) -> (r: bool)
    ensures
        r == (match json::lookup(json::entries(rule@), "params"@) {
            Some(Json::Object(params)) => is_set(json::lookup(params, "name"@)),
            _ => false,
        }),
{
    match find_value(rule, "params") {
        Some(JsonValue::Object(params)) => match find_value(params, "name") {
            Some(JsonValue::Null) => false,
            Some(_) => true,
            None => false,
        },
        _ => false,
    }
}

fn move_tool(rule: &mut Vec<(String, JsonValue)>) -> (selects: bool)
    ensures
        (json::entries(final(rule)@), selects) == tool_moved(json::entries(old(rule)@)),
{
    let selects = tool_selected(rule);
    let tool = match remove_entry(rule, "tool") {
        Some(JsonValue::Null) => {
            return selects;
        },
        Some(tool) => tool,
        None => {
            return selects;
        },
    };
    let mut params: Vec<(String, JsonValue)> = match find_value(rule, "params") {
        Some(JsonValue::Object(params)) => copy_entries(params),
        Some(_) => {
            return selects;
        },
        None => {
            let none: Vec<(String, JsonValue)> = Vec::new();
            assert(json::entries(none@) == Seq::<(Seq<char>, Json)>::empty());
            none
        },
    };
    if find_value(&params, "name").is_none() {
        set_entry(&mut params, "name", tool);
    }
    set_entry(rule, "params", JsonValue::Object(params));
    true
}

fn method_missing(rule: &Vec<(String, JsonValue)>) -> (r: bool)
    ensures
        r == lacks_method(json::entries(rule@)),
{
    match find_value(rule, "method") {
        Some(JsonValue::Text(method)) => chars_of(method.as_str()).len() == 0,
        _ => true,
    }
}

/// Brings a rule into runtime form.
pub fn normalize_l7_rule_aliases(
    rule: &mut Vec<(String, JsonValue)>,
    protocol: &str,
    allow_all_known: bool,
)
    ensures
        json::entries(final(rule)@) == rule_normalized(
            json::entries(old(rule)@),
            protocol@,
            allow_all_known,
        ),
{
    if same(protocol, "mcp") {
        let selects = move_tool(rule);
        if allow_all_known && method_missing(rule) {
            let method = if selects {
                "tools/call"
            } else {
                "*"
            };
            set_entry(rule, "method", JsonValue::Text(method.to_string()));
        }
    }
    normalize_l7_matcher_map(rule, "query");
    normalize_l7_matcher_map(rule, "params");
}

fn normalize_allow_rule(rule: &JsonValue, protocol: &str, allow_all_known: bool) -> (r: JsonValue)
    ensures
        r@ == allow_rule_normalized(rule@, protocol@, allow_all_known),
{
    match rule {
        JsonValue::Object(list) => {
            let mut object = copy_entries(list);
            let allow = match find_value(list, "allow") {
                Some(JsonValue::Object(allow)) => Some(copy_entries(allow)),
                _ => None,
            };
            match allow {
                Some(mut allow) => {
                    normalize_l7_rule_aliases(&mut allow, protocol, allow_all_known);
                    set_entry(&mut object, "allow", JsonValue::Object(allow));
                },
                None => {
                    normalize_l7_rule_aliases(&mut object, protocol, allow_all_known);
                },
            }
            JsonValue::Object(object)
        },
        other => other.copy(),
    }
}

fn normalize_deny_rule(rule: &JsonValue, protocol: &str, allow_all_known: bool) -> (r: JsonValue)
    ensures
        r@ == deny_rule_normalized(rule@, protocol@, allow_all_known),
{
    match rule {
        JsonValue::Object(list) => {
            let mut object = copy_entries(list);
            normalize_l7_rule_aliases(&mut object, protocol, allow_all_known);
            JsonValue::Object(object)
        },
        other => other.copy(),
    }
}

fn normalize_rule_list(
    endpoint: &mut Vec<(String, JsonValue)>,
    key: &str,
    deny: bool,
    protocol: &str,
    allow_all_known: bool,
)
    ensures
        json::entries(final(endpoint)@) == rule_list_normalized(
            json::entries(old(endpoint)@),
            key@,
            deny,
            protocol@,
            allow_all_known,
        ),
{
    let mut normalized: Vec<JsonValue> = Vec::new();
    match find_value(endpoint, key) {
        Some(JsonValue::Array(rules)) => {
            let ghost all = normalized_rules(
                json::values(rules@),
                deny,
                protocol@,
                allow_all_known,
            );
            let mut i: usize = 0;
            while i < rules.len()
                invariant
                    i <= rules@.len(),
                    all == normalized_rules(
                        json::values(rules@),
                        deny,
                        protocol@,
                        allow_all_known,
                    ),
                    json::values(normalized@) == all.take(i as int),
                decreases rules@.len() - i,
            {
                let rule = if deny {
                    normalize_deny_rule(&rules[i], protocol, allow_all_known)
                } else {
                    normalize_allow_rule(&rules[i], protocol, allow_all_known)
                };
                let ghost model = rule@;
                let ghost before = json::values(normalized@);
                normalized.push(rule);
                assert(json::values(normalized@) == before.push(model));
                assert(json::values(rules@)[i as int] == rules@[i as int]@);
                assert(all[i as int] == model);
                assert(all.take(i + 1) == before.push(model));
                i += 1;
            }
            assert(all.take(i as int) == all);
        },
        _ => {
            return ;
        },
    }
    set_entry(endpoint, key, JsonValue::Array(normalized));
}

/// Brings the rules of an endpoint into runtime form.
pub fn normalize_l7_rules_aliases(endpoint: &mut Vec<(String, JsonValue)>)
    ensures
        json::entries(final(endpoint)@) == rules_normalized(json::entries(old(endpoint)@)),
{
    let protocol = match find_value(endpoint, "protocol") {
        Some(JsonValue::Text(protocol)) => protocol.clone(),
        _ => String::new(),
    };
    assert(protocol@ == protocol_of(json::entries(endpoint@)));
    let all = match find_value(endpoint, "mcp_allow_all_known_mcp_methods") {
        Some(JsonValue::Bool(b)) => *b,
        _ => false,
    };
    normalize_rule_list(endpoint, "rules", false, protocol.as_str(), all);
    normalize_rule_list(endpoint, "deny_rules", true, protocol.as_str(), all);
}

fn pass_endpoint(endpoint: &JsonValue, pass: EndpointPass) -> (r: JsonValue)
    ensures
        r@ == endpoint_passed(endpoint@, pass),
{
    match endpoint {
        JsonValue::Object(list) => {
            let mut object = copy_entries(list);
            match pass {
                EndpointPass::Protocols => normalize_protocol(&mut object),
                EndpointPass::Ports => normalize_ports(&mut object),
                EndpointPass::RuleAliases => normalize_l7_rules_aliases(&mut object),
            }
            JsonValue::Object(object)
        },
        other => other.copy(),
    }
}

fn pass_endpoints(endpoints: &Vec<JsonValue>, pass: EndpointPass) -> (r: Vec<JsonValue>)
    ensures
        json::values(r@) == json::values(endpoints@).map_values(
            |e: Json| endpoint_passed(e, pass),
        ),
{
    let ghost all = json::values(endpoints@).map_values(|e: Json| endpoint_passed(e, pass));
    let mut r: Vec<JsonValue> = Vec::new();
    let mut i: usize = 0;
    while i < endpoints.len()
        invariant
            i <= endpoints@.len(),
            all == json::values(endpoints@).map_values(|e: Json| endpoint_passed(e, pass)),
            json::values(r@) == all.take(i as int),
        decreases endpoints@.len() - i,
    {
        let endpoint = pass_endpoint(&endpoints[i], pass);
        let ghost model = endpoint@;
        let ghost before = json::values(r@);
        r.push(endpoint);
        assert(json::values(r@) == before.push(model));
        assert(json::values(endpoints@)[i as int] == endpoints@[i as int]@);
        assert(all[i as int] == model);
        assert(all.take(i + 1) == before.push(model));
        i += 1;
    }
    assert(all.take(i as int) == all);
    r
}

fn pass_policy(policy: &JsonValue, pass: EndpointPass) -> (r: JsonValue)
    ensures
        r@ == policy_passed(policy@, pass),
{
    if let JsonValue::Object(list) = policy {
        if let Some(JsonValue::Array(endpoints)) = find_value(list, "endpoints") {
            let mut object = copy_entries(list);
            set_entry(
                &mut object,
                "endpoints",
                JsonValue::Array(pass_endpoints(endpoints, pass)),
            );
            return JsonValue::Object(object);
        }
    }
    policy.copy()
}

fn pass_policies(policies: &Vec<(String, JsonValue)>, pass: EndpointPass) -> (r: Vec<
    (String, JsonValue),
>)
    ensures
        json::entries(r@) == json::entries(policies@).map_values(
            |pair: (Seq<char>, Json)| (pair.0, policy_passed(pair.1, pass)),
        ),
{
    let ghost all = json::entries(policies@).map_values(
        |pair: (Seq<char>, Json)| (pair.0, policy_passed(pair.1, pass)),
    );
    let mut r: Vec<(String, JsonValue)> = Vec::new();
    let mut i: usize = 0;
    while i < policies.len()
        invariant
            i <= policies@.len(),
            all == json::entries(policies@).map_values(
                |pair: (Seq<char>, Json)| (pair.0, policy_passed(pair.1, pass)),
            ),
            json::entries(r@) == all.take(i as int),
        decreases policies@.len() - i,
    {
        let pair = (policies[i].0.clone(), pass_policy(&policies[i].1, pass));
        let ghost model = (pair.0@, pair.1@);
        let ghost before = json::entries(r@);
        r.push(pair);
        assert(json::entries(r@) == before.push(model));
        assert(json::entries(policies@)[i as int] == (
            policies@[i as int].0@,
            policies@[i as int].1@,
        ));
        assert(all[i as int] == model);
        assert(all.take(i + 1) == before.push(model));
        i += 1;
    }
    assert(all.take(i as int) == all);
    r
}

fn pass_data(data: &JsonValue, pass: EndpointPass) -> (r: JsonValue)
    ensures
        r@ == data_passed(data@, pass),
{
    if let JsonValue::Object(list) = data {
        if let Some(JsonValue::Object(policies)) = find_value(list, "network_policies") {
            let mut object = copy_entries(list);
            set_entry(
                &mut object,
                "network_policies",
                JsonValue::Object(pass_policies(policies, pass)),
            );
            return JsonValue::Object(object);
        }
    }
    data.copy()
}

/// Spells recognized protocols canonically: their names are read in any case,
/// and the engine's rules compare one spelling.
pub fn normalize_endpoint_protocols(data: &mut JsonValue)
    ensures
        final(data)@ == data_passed(old(data)@, EndpointPass::Protocols),
{
    *data = pass_data(data, EndpointPass::Protocols);
}

/// Gives every endpoint a list of ports in place of a single port.
pub fn normalize_endpoint_ports(data: &mut JsonValue)
    ensures
        final(data)@ == data_passed(old(data)@, EndpointPass::Ports),
{
    *data = pass_data(data, EndpointPass::Ports);
}

/// Brings the rules of every endpoint into runtime form.
pub fn normalize_l7_policy_rule_aliases(data: &mut JsonValue)
    ensures
        final(data)@ == data_passed(old(data)@, EndpointPass::RuleAliases),
{
    *data = pass_data(data, EndpointPass::RuleAliases);
}

} // verus!
