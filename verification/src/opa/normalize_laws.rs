//! Laws of the normal forms of policy data.

use crate::json;
use crate::json::Json;
use crate::opa::builder;
use crate::opa::builder::Entries;
use crate::opa::normalize;
use crate::opa::normalize::EndpointPass;
use crate::text;
use vstd::prelude::*;

verus! {

/// Setting a key to the value that it has changes nothing.
proof fn lemma_set_same(object: Entries, key: Seq<char>, value: Json)
    requires
        json::lookup(object, key) == Some(value),
    ensures
        json::with_entry(object, key, value) == object,
{
    json::lemma_position(object, key);
    assert(json::with_entry(object, key, value) =~= object);
}

/// Setting a key keeps keys distinct.
proof fn lemma_set_distinct(object: Entries, key: Seq<char>, value: Json)
    requires
        json::distinct_keys(object),
    ensures
        json::distinct_keys(json::with_entry(object, key, value)),
{
    json::lemma_position(object, key);
    let after = json::with_entry(object, key, value);
    assert forall|i: int, j: int| 0 <= i < j < after.len() implies (#[trigger] after[i]).0 != (
    #[trigger] after[j]).0 by {
        let at = json::position(object, key);
        if at < object.len() {
            assert(after[i].0 == object[i].0);
            assert(after[j].0 == object[j].0);
        } else if j < object.len() {
            assert(after[i] == object[i]);
            assert(after[j] == object[j]);
        } else {
            assert(after[i] == object[i]);
        }
    }
}

/// A removed key is gone, and other keys keep their values.
proof fn lemma_lookup_removed(object: Entries, key: Seq<char>, other: Seq<char>)
    requires
        json::distinct_keys(object),
    ensures
        json::lookup(json::without_entry(object, key), other) == if other == key {
            None
        } else {
            json::lookup(object, other)
        },
        json::distinct_keys(json::without_entry(object, key)),
{
    json::lemma_position(object, key);
    json::lemma_position(object, other);
    let at = json::position(object, key);
    let found = json::position(object, other);
    let after = json::without_entry(object, key);
    if at < object.len() {
        assert forall|i: int| 0 <= i < after.len() implies #[trigger] after[i] == object[if i < at {
            i
        } else {
            i + 1
        }] by {}
        assert forall|i: int, j: int| 0 <= i < j < after.len() implies (#[trigger] after[i]).0 != (
        #[trigger] after[j]).0 by {}
        if other == key {
            assert forall|i: int| 0 <= i < after.len() implies (#[trigger] after[i]).0 != key by {
                let k = if i < at {
                    i
                } else {
                    i + 1
                };
                assert(object[k].0 != object[at].0);
            }
            json::lemma_position_is(after, other, after.len() as int);
        } else if found < at {
            assert(after[found] == object[found]);
            assert forall|i: int| 0 <= i < found implies (#[trigger] after[i]).0 != other by {
                assert(after[i] == object[i]);
            }
            json::lemma_position_is(after, other, found);
        } else if found < object.len() {
            assert(found != at);
            assert(after[found - 1] == object[found]);
            json::lemma_position_is(after, other, found - 1);
        } else {
            json::lemma_position_is(after, other, after.len() as int);
        }
    }
}

/// A key that is not there is removed by doing nothing.
proof fn lemma_remove_absent(object: Entries, key: Seq<char>)
    requires
        json::lookup(object, key) is None,
    ensures
        json::without_entry(object, key) == object,
{
    json::lemma_position(object, key);
}

/// Setting the same key twice to one value is setting it once.
proof fn lemma_set_twice(object: Entries, key: Seq<char>, value: Json)
    ensures
        json::with_entry(json::with_entry(object, key, value), key, value) == json::with_entry(
            object,
            key,
            value,
        ),
{
    json::lookup_after_set(object, key, value, key);
    lemma_set_same(json::with_entry(object, key, value), key, value);
}

proof fn lemma_canonical_name(protocol: Seq<char>)
    ensures
        normalize::canonical_protocol(protocol) matches Some(name) ==> normalize::canonical_protocol(
            name,
        ) == Some(name),
{
    reveal_strlit("tcp");
    reveal_strlit("rest");
    reveal_strlit("websocket");
    reveal_strlit("graphql");
    reveal_strlit("sql");
    reveal_strlit("json-rpc");
    reveal_strlit("mcp");
    assert(text::lowered("tcp"@).len() == 3 && text::lowered("tcp"@)[0] == 't');
    assert(text::lowered("sql"@).len() == 3 && text::lowered("sql"@)[0] == 's');
    assert(text::lowered("mcp"@).len() == 3 && text::lowered("mcp"@)[0] == 'm');
    assert(text::lowered("rest"@).len() == 4);
    assert(text::lowered("websocket"@).len() == 9);
    assert(text::lowered("graphql"@).len() == 7);
    assert(text::lowered("json-rpc"@).len() == 8);
}

/// Canonical protocols stay as they are.
pub proof fn protocol_normal_form_is_stable(endpoint: Entries)
    ensures
        normalize::protocol_normalized(normalize::protocol_normalized(endpoint))
            == normalize::protocol_normalized(endpoint),
{
    if let Some(Json::Text(protocol)) = json::lookup(endpoint, "protocol"@) {
        lemma_canonical_name(protocol);
        if let Some(name) = normalize::canonical_protocol(protocol) {
            json::lookup_after_set(endpoint, "protocol"@, Json::Text(name), "protocol"@);
            lemma_set_twice(endpoint, "protocol"@, Json::Text(name));
        }
    }
}

/// After normalization an endpoint has no single port, and its list of ports
/// stays as it is.
pub proof fn ports_normal_form_is_stable(endpoint: Entries)
    requires
        json::distinct_keys(endpoint),
    ensures
        json::lookup(normalize::ports_normalized(endpoint), "port"@) is None,
        normalize::ports_normalized(normalize::ports_normalized(endpoint))
            == normalize::ports_normalized(endpoint),
{
    let promoted = if normalize::has_ports(endpoint) {
        endpoint
    } else {
        match normalize::as_u64(json::lookup(endpoint, "port"@)) {
            Some(port) => if port > 0 {
                json::with_entry(
                    endpoint,
                    "ports"@,
                    Json::Array(seq![builder::number(port)]),
                )
            } else {
                endpoint
            },
            None => endpoint,
        }
    };
    if promoted != endpoint {
        let port = normalize::as_u64(json::lookup(endpoint, "port"@))->Some_0;
        lemma_set_distinct(endpoint, "ports"@, Json::Array(seq![builder::number(port)]));
    }
    lemma_lookup_removed(promoted, "port"@, "port"@);
    let after = normalize::ports_normalized(endpoint);
    assert(after == json::without_entry(promoted, "port"@));
    lemma_remove_absent(after, "port"@);
}

/// Matchers in runtime form stay as they are.
pub proof fn matcher_normal_form_is_stable(rule: Entries, field: Seq<char>)
    ensures
        normalize::matcher_field_normalized(
            normalize::matcher_field_normalized(rule, field),
            field,
        ) == normalize::matcher_field_normalized(rule, field),
{
    if let Some(Json::Object(matchers)) = json::lookup(rule, field) {
        let once = normalize::matchers_normalized(matchers);
        assert(normalize::matchers_normalized(once) =~= once);
        json::lookup_after_set(rule, field, Json::Object(once), field);
        lemma_set_twice(rule, field, Json::Object(once));
    }
}

/// Normalizing the matchers of one field leaves every other field alone.
proof fn lemma_matcher_other(rule: Entries, field: Seq<char>, other: Seq<char>)
    requires
        other != field,
    ensures
        json::lookup(normalize::matcher_field_normalized(rule, field), other) == json::lookup(
            rule,
            other,
        ),
{
    if let Some(Json::Object(matchers)) = json::lookup(rule, field) {
        json::lookup_after_set(
            rule,
            field,
            Json::Object(normalize::matchers_normalized(matchers)),
            other,
        );
    }
}

/// A field whose matchers are in runtime form is left alone.
proof fn lemma_matcher_noop(rule: Entries, field: Seq<char>)
    requires
        json::lookup(rule, field) matches Some(Json::Object(matchers))
            ==> normalize::matchers_normalized(matchers) == matchers,
    ensures
        normalize::matcher_field_normalized(rule, field) == rule,
{
    if let Some(Json::Object(matchers)) = json::lookup(rule, field) {
        lemma_set_same(rule, field, Json::Object(matchers));
    }
}

proof fn lemma_matcher_result(rule: Entries, field: Seq<char>)
    ensures
        json::lookup(
            normalize::matcher_field_normalized(rule, field),
            field,
        ) matches Some(Json::Object(matchers)) ==> normalize::matchers_normalized(matchers)
            == matchers,
{
    if let Some(Json::Object(matchers)) = json::lookup(rule, field) {
        let once = normalize::matchers_normalized(matchers);
        assert(normalize::matchers_normalized(once) =~= once);
        json::lookup_after_set(rule, field, Json::Object(once), field);
    }
}

proof fn lemma_keys()
    ensures
        "tool"@ != "params"@,
        "tool"@ != "method"@,
        "tool"@ != "query"@,
        "method"@ != "params"@,
        "method"@ != "query"@,
        "query"@ != "params"@,
        "rules"@ != "deny_rules"@,
        "tools/call"@.len() > 0,
        "*"@.len() > 0,
{
    reveal_strlit("tool");
    reveal_strlit("params");
    reveal_strlit("method");
    reveal_strlit("query");
    reveal_strlit("rules");
    reveal_strlit("deny_rules");
    reveal_strlit("tools/call");
    reveal_strlit("*");
    assert("method"@[0] != "params"@[0]);
    assert("tool"@.len() == 4 && "query"@.len() == 5);
    assert("rules"@.len() == 5 && "deny_rules"@.len() == 10);
}

/// A rule in runtime form stays as it is.
pub proof fn rule_normal_form_is_stable(rule: Entries, protocol: Seq<char>, allow_all_known: bool)
    requires
        json::distinct_keys(rule),
    ensures
        normalize::rule_normalized(
            normalize::rule_normalized(rule, protocol, allow_all_known),
            protocol,
            allow_all_known,
        ) == normalize::rule_normalized(rule, protocol, allow_all_known),
{
    lemma_keys();
    let start = if protocol == "mcp"@ {
        normalize::mcp_rule_normalized(rule, allow_all_known)
    } else {
        rule
    };
    let middle = normalize::matcher_field_normalized(start, "query"@);
    let end = normalize::matcher_field_normalized(middle, "params"@);
    if protocol == "mcp"@ {
        lemma_tool_moved(rule);
        let (moved, selects) = normalize::tool_moved(rule);
        let method = Json::Text(
            if selects {
                "tools/call"@
            } else {
                "*"@
            },
        );
        if allow_all_known && normalize::lacks_method(moved) {
            json::lookup_after_set(moved, "method"@, method, "tool"@);
            json::lookup_after_set(moved, "method"@, method, "method"@);
        }
        assert(json::lookup(start, "tool"@) is None);
        assert(allow_all_known ==> !normalize::lacks_method(start));
        lemma_matcher_other(start, "query"@, "tool"@);
        lemma_matcher_other(middle, "params"@, "tool"@);
        lemma_matcher_other(start, "query"@, "method"@);
        lemma_matcher_other(middle, "params"@, "method"@);
        lemma_remove_absent(end, "tool"@);
        assert(normalize::tool_moved(end).0 == end);
        assert(normalize::mcp_rule_normalized(end, allow_all_known) == end);
    }
    lemma_matcher_result(start, "query"@);
    lemma_matcher_other(middle, "params"@, "query"@);
    lemma_matcher_noop(end, "query"@);
    lemma_matcher_result(middle, "params"@);
    lemma_matcher_noop(end, "params"@);
}

proof fn lemma_tool_moved(rule: Entries)
    requires
        json::distinct_keys(rule),
    ensures
        json::lookup(normalize::tool_moved(rule).0, "tool"@) is None,
{
    lemma_keys();
    let bare = json::without_entry(rule, "tool"@);
    lemma_lookup_removed(rule, "tool"@, "tool"@);
    if let Some(tool) = json::lookup(rule, "tool"@) {
        if let Json::Object(params) = normalize::params_or_empty(bare) {
            json::lookup_after_set(
                bare,
                "params"@,
                Json::Object(normalize::with_default(params, "name"@, tool)),
                "tool"@,
            );
        }
    }
}

/// The value under a key of a value without duplicate keys has none either.
proof fn lemma_unique_lookup(object: Entries, key: Seq<char>)
    requires
        json::unique_keys(Json::Object(object)),
    ensures
        json::lookup(object, key) matches Some(value) ==> json::unique_keys(value),
        json::distinct_keys(object),
{
    json::lemma_position(object, key);
}

/// The runtime form of a rule differs from the rule only in its tool, params,
/// method and query.
proof fn lemma_rule_keeps(rule: Entries, protocol: Seq<char>, all: bool, key: Seq<char>)
    requires
        json::distinct_keys(rule),
        key != "tool"@,
        key != "params"@,
        key != "method"@,
        key != "query"@,
    ensures
        json::lookup(normalize::rule_normalized(rule, protocol, all), key) == json::lookup(
            rule,
            key,
        ),
{
    let start = if protocol == "mcp"@ {
        normalize::mcp_rule_normalized(rule, all)
    } else {
        rule
    };
    if protocol == "mcp"@ {
        let bare = json::without_entry(rule, "tool"@);
        lemma_lookup_removed(rule, "tool"@, key);
        let (moved, selects) = normalize::tool_moved(rule);
        if let Some(tool) = json::lookup(rule, "tool"@) {
            if let Json::Object(params) = normalize::params_or_empty(bare) {
                json::lookup_after_set(
                    bare,
                    "params"@,
                    Json::Object(normalize::with_default(params, "name"@, tool)),
                    key,
                );
            }
        }
        assert(json::lookup(moved, key) == json::lookup(rule, key));
        json::lookup_after_set(
            moved,
            "method"@,
            Json::Text(
                if selects {
                    "tools/call"@
                } else {
                    "*"@
                },
            ),
            key,
        );
    }
    lemma_matcher_other(start, "query"@, key);
    lemma_matcher_other(
        normalize::matcher_field_normalized(start, "query"@),
        "params"@,
        key,
    );
}

proof fn lemma_more_keys()
    ensures
        "allow"@ != "tool"@,
        "allow"@ != "params"@,
        "allow"@ != "method"@,
        "allow"@ != "query"@,
        "rules"@ != "deny_rules"@,
        "protocol"@ != "rules"@,
        "protocol"@ != "deny_rules"@,
        "mcp_allow_all_known_mcp_methods"@ != "rules"@,
        "mcp_allow_all_known_mcp_methods"@ != "deny_rules"@,
{
    reveal_strlit("allow");
    reveal_strlit("tool");
    reveal_strlit("params");
    reveal_strlit("method");
    reveal_strlit("query");
    reveal_strlit("rules");
    reveal_strlit("deny_rules");
    reveal_strlit("protocol");
    reveal_strlit("mcp_allow_all_known_mcp_methods");
    assert("allow"@.len() == 5 && "tool"@.len() == 4 && "params"@.len() == 6 && "method"@.len()
        == 6);
    assert("allow"@[0] == 'a' && "query"@[0] == 'q');
    assert("rules"@.len() == 5 && "deny_rules"@.len() == 10 && "protocol"@.len() == 8);
    assert("mcp_allow_all_known_mcp_methods"@.len() == 31);
}

proof fn lemma_allow_rule_stable(rule: Json, protocol: Seq<char>, all: bool)
    requires
        json::unique_keys(rule),
    ensures
        normalize::allow_rule_normalized(
            normalize::allow_rule_normalized(rule, protocol, all),
            protocol,
            all,
        ) == normalize::allow_rule_normalized(rule, protocol, all),
{
    lemma_more_keys();
    if let Json::Object(object) = rule {
        lemma_unique_lookup(object, "allow"@);
        match json::lookup(object, "allow"@) {
            Some(Json::Object(allow)) => {
                lemma_unique_lookup(allow, "allow"@);
                rule_normal_form_is_stable(allow, protocol, all);
                let inner = Json::Object(normalize::rule_normalized(allow, protocol, all));
                json::lookup_after_set(object, "allow"@, inner, "allow"@);
                lemma_set_twice(object, "allow"@, inner);
            },
            _ => {
                lemma_rule_keeps(object, protocol, all, "allow"@);
                rule_normal_form_is_stable(object, protocol, all);
            },
        }
    }
}

proof fn lemma_deny_rule_stable(rule: Json, protocol: Seq<char>, all: bool)
    requires
        json::unique_keys(rule),
    ensures
        normalize::deny_rule_normalized(
            normalize::deny_rule_normalized(rule, protocol, all),
            protocol,
            all,
        ) == normalize::deny_rule_normalized(rule, protocol, all),
{
    if let Json::Object(object) = rule {
        lemma_unique_lookup(object, "allow"@);
        rule_normal_form_is_stable(object, protocol, all);
    }
}

/// Rules in runtime form stay as they are.
proof fn lemma_rules_stable(rules: Seq<Json>, deny: bool, protocol: Seq<char>, all: bool)
    requires
        forall|i: int| 0 <= i < rules.len() ==> json::unique_keys(#[trigger] rules[i]),
    ensures
        ({
            let once = normalize::normalized_rules(rules, deny, protocol, all);
            normalize::normalized_rules(once, deny, protocol, all) == once
        }),
{
    let once = normalize::normalized_rules(rules, deny, protocol, all);
    let twice = normalize::normalized_rules(once, deny, protocol, all);
    assert forall|i: int| 0 <= i < once.len() implies twice[i] == once[i] by {
        assert(json::unique_keys(rules[i]));
        lemma_deny_rule_stable(rules[i], protocol, all);
        lemma_allow_rule_stable(rules[i], protocol, all);
    }
    assert(twice =~= once);
}

/// Changing the rules under one key leaves every other key alone.
proof fn lemma_rule_list_other(
    endpoint: Entries,
    key: Seq<char>,
    deny: bool,
    protocol: Seq<char>,
    all: bool,
    other: Seq<char>,
)
    requires
        other != key,
    ensures
        json::lookup(
            normalize::rule_list_normalized(endpoint, key, deny, protocol, all),
            other,
        ) == json::lookup(endpoint, other),
{
    if let Some(Json::Array(rules)) = json::lookup(endpoint, key) {
        json::lookup_after_set(
            endpoint,
            key,
            Json::Array(normalize::normalized_rules(rules, deny, protocol, all)),
            other,
        );
    }
}

/// The rules of an endpoint in runtime form stay as they are.
pub proof fn rules_normal_form_is_stable(endpoint: Entries)
    requires
        json::unique_keys(Json::Object(endpoint)),
    ensures
        normalize::rules_normalized(normalize::rules_normalized(endpoint))
            == normalize::rules_normalized(endpoint),
{
    lemma_more_keys();
    let p = normalize::protocol_of(endpoint);
    let all = normalize::allows_all_known(endpoint);
    let first = normalize::rule_list_normalized(endpoint, "rules"@, false, p, all);
    let second = normalize::rule_list_normalized(first, "deny_rules"@, true, p, all);
    lemma_rule_list_other(endpoint, "rules"@, false, p, all, "protocol"@);
    lemma_rule_list_other(first, "deny_rules"@, true, p, all, "protocol"@);
    lemma_rule_list_other(
        endpoint,
        "rules"@,
        false,
        p,
        all,
        "mcp_allow_all_known_mcp_methods"@,
    );
    lemma_rule_list_other(
        first,
        "deny_rules"@,
        true,
        p,
        all,
        "mcp_allow_all_known_mcp_methods"@,
    );
    assert(normalize::protocol_of(second) == p);
    assert(normalize::allows_all_known(second) == all);
    // The allow rules of the result are those of the first step.
    lemma_rule_list_other(first, "deny_rules"@, true, p, all, "rules"@);
    lemma_unique_lookup(endpoint, "rules"@);
    assert(normalize::rule_list_normalized(second, "rules"@, false, p, all) == second) by {
        if let Some(Json::Array(rules)) = json::lookup(endpoint, "rules"@) {
            let list = normalize::normalized_rules(rules, false, p, all);
            json::lookup_after_set(endpoint, "rules"@, Json::Array(list), "rules"@);
            lemma_rules_stable(rules, false, p, all);
            lemma_set_same(second, "rules"@, Json::Array(list));
        }
    }
    // The deny rules of the first step are those of the endpoint.
    lemma_rule_list_other(endpoint, "rules"@, false, p, all, "deny_rules"@);
    lemma_unique_lookup(endpoint, "deny_rules"@);
    assert(normalize::rule_list_normalized(second, "deny_rules"@, true, p, all) == second) by {
        if let Some(Json::Array(rules)) = json::lookup(first, "deny_rules"@) {
            let list = normalize::normalized_rules(rules, true, p, all);
            lemma_rules_stable(rules, true, p, all);
            json::lookup_after_set(first, "deny_rules"@, Json::Array(list), "deny_rules"@);
            lemma_set_twice(first, "deny_rules"@, Json::Array(list));
        }
    }
}

proof fn lemma_endpoint_stable(endpoint: Json, pass: EndpointPass)
    requires
        json::unique_keys(endpoint),
    ensures
        normalize::endpoint_passed(normalize::endpoint_passed(endpoint, pass), pass)
            == normalize::endpoint_passed(endpoint, pass),
{
    if let Json::Object(object) = endpoint {
        lemma_unique_lookup(object, "port"@);
        match pass {
            EndpointPass::Protocols => protocol_normal_form_is_stable(object),
            EndpointPass::Ports => ports_normal_form_is_stable(object),
            EndpointPass::RuleAliases => rules_normal_form_is_stable(object),
        }
    }
}

proof fn lemma_policy_stable(policy: Json, pass: EndpointPass)
    requires
        json::unique_keys(policy),
    ensures
        normalize::policy_passed(normalize::policy_passed(policy, pass), pass)
            == normalize::policy_passed(policy, pass),
{
    if let Json::Object(object) = policy {
        lemma_unique_lookup(object, "endpoints"@);
        if let Some(Json::Array(endpoints)) = json::lookup(object, "endpoints"@) {
            let f = |e: Json| normalize::endpoint_passed(e, pass);
            let list = endpoints.map_values(f);
            assert(list.map_values(f) =~= list) by {
                assert forall|i: int| 0 <= i < list.len() implies list.map_values(f)[i]
                    == list[i] by {
                    assert(json::unique_keys(endpoints[i]));
                    lemma_endpoint_stable(endpoints[i], pass);
                }
            }
            json::lookup_after_set(object, "endpoints"@, Json::Array(list), "endpoints"@);
            lemma_set_twice(object, "endpoints"@, Json::Array(list));
        }
    }
}

/// Normalized policy data stays as it is: to normalize protocols, ports or
/// rule aliases again changes nothing.
pub proof fn normalization_is_stable(data: Json, pass: EndpointPass)
    requires
        json::unique_keys(data),
    ensures
        normalize::data_passed(normalize::data_passed(data, pass), pass) == normalize::data_passed(
            data,
            pass,
        ),
{
    if let Json::Object(object) = data {
        lemma_unique_lookup(object, "network_policies"@);
        if let Some(Json::Object(policies)) = json::lookup(object, "network_policies"@) {
            let f = |pair: (Seq<char>, Json)| (pair.0, normalize::policy_passed(pair.1, pass));
            let list = policies.map_values(f);
            assert(list.map_values(f) =~= list) by {
                assert forall|i: int| 0 <= i < list.len() implies list.map_values(f)[i]
                    == list[i] by {
                    assert(json::unique_keys(policies[i].1));
                    lemma_policy_stable(policies[i].1, pass);
                }
            }
            json::lookup_after_set(
                object,
                "network_policies"@,
                Json::Object(list),
                "network_policies"@,
            );
            lemma_set_twice(object, "network_policies"@, Json::Object(list));
        }
    }
}

/// The fields of an endpoint that a pass may change.
pub open spec fn is_changed_field(pass: EndpointPass, key: Seq<char>) -> bool {
    match pass {
        EndpointPass::Protocols => key == "protocol"@,
        EndpointPass::Ports => key == "ports"@ || key == "port"@,
        EndpointPass::RuleAliases => key == "rules"@ || key == "deny_rules"@,
    }
}

/// A pass keeps all fields of an endpoint but those that it is about.
pub proof fn pass_keeps_other_fields(endpoint: Entries, pass: EndpointPass, key: Seq<char>)
    requires
        !is_changed_field(pass, key),
    ensures
        normalize::endpoint_passed(Json::Object(endpoint), pass) matches Json::Object(passed)
            && json::lookup(passed, key) == json::lookup(endpoint, key),
{
    match pass {
        EndpointPass::Protocols => {
            if let Some(Json::Text(protocol)) = json::lookup(endpoint, "protocol"@) {
                if let Some(name) = normalize::canonical_protocol(protocol) {
                    json::lookup_after_set(endpoint, "protocol"@, Json::Text(name), key);
                }
            }
        },
        EndpointPass::Ports => {
            if !normalize::has_ports(endpoint) {
                if let Some(port) = normalize::as_u64(json::lookup(endpoint, "port"@)) {
                    let ports = Json::Array(seq![builder::number(port)]);
                    json::lookup_after_set(endpoint, "ports"@, ports, key);
                    json::lookup_after_remove(
                        json::with_entry(endpoint, "ports"@, ports),
                        "port"@,
                        key,
                    );
                }
            }
            json::lookup_after_remove(endpoint, "port"@, key);
        },
        EndpointPass::RuleAliases => {
            let p = normalize::protocol_of(endpoint);
            let all = normalize::allows_all_known(endpoint);
            let first = normalize::rule_list_normalized(endpoint, "rules"@, false, p, all);
            lemma_rule_list_other(endpoint, "rules"@, false, p, all, key);
            lemma_rule_list_other(first, "deny_rules"@, true, p, all, key);
        },
    }
}

/// A pass keeps all policy data but the network policies, and of these the
/// names and their order.
pub proof fn pass_keeps_other_data(data: Entries, pass: EndpointPass, key: Seq<char>)
    ensures
        normalize::data_passed(Json::Object(data), pass) matches Json::Object(passed) && {
            &&& key != "network_policies"@ ==> json::lookup(passed, key) == json::lookup(data, key)
            &&& json::lookup(data, "network_policies"@) matches Some(Json::Object(policies)) ==> {
                &&& json::lookup(passed, "network_policies"@) matches Some(Json::Object(list))
                &&& list.len() == policies.len()
                &&& forall|i: int| 0 <= i < list.len() ==> (#[trigger] list[i]).0 == policies[i].0
            }
        },
{
    if let Some(Json::Object(policies)) = json::lookup(data, "network_policies"@) {
        let list = policies.map_values(
            |pair: (Seq<char>, Json)| (pair.0, normalize::policy_passed(pair.1, pass)),
        );
        json::lookup_after_set(data, "network_policies"@, Json::Object(list), key);
        json::lookup_after_set(
            data,
            "network_policies"@,
            Json::Object(list),
            "network_policies"@,
        );
    }
}

} // verus!
