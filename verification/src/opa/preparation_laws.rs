//! What holds of every policy document on its way to the policy engine.

use crate::json;
use crate::json::{Json, NumberModel};
use crate::l7::protocol::L7Protocol;
use crate::opa::builder::Entries;
use crate::opa::builder_laws;
use crate::opa::diagnostics;
use crate::opa::normalize;
use crate::opa::normalize::EndpointPass;
use crate::opa::structure;
use crate::text;
use vstd::prelude::*;

verus! {

/// The runtime section says whether binary identity is required; the rest of the
/// document stays.
pub proof fn runtime_section_is_found(data: Entries, required: bool, key: Seq<char>)
    ensures
        ({
            let after = normalize::with_runtime(Json::Object(data), required);
            &&& after.field("runtime"@) is Some
            &&& after.field("runtime"@)->Some_0.field("require_binary_identity"@) == Some(
                Json::Bool(required),
            )
            &&& key != "runtime"@ ==> after.field(key) == Json::Object(data).field(key)
        }),
{
    let section = crate::opa::builder::entry("require_binary_identity"@, Json::Bool(required));
    json::lookup_after_set(data, "runtime"@, Json::Object(section), "runtime"@);
    json::lookup_after_set(data, "runtime"@, Json::Object(section), key);
    builder_laws::found_is_lookup(section, "require_binary_identity"@);
    builder_laws::found_entry(
        "require_binary_identity"@,
        Json::Bool(required),
        "require_binary_identity"@,
    );
}

/// A protocol is written by its canonical name, whatever its case; `tcp` is one
/// of them. A text that names no protocol stays.
pub proof fn protocol_gets_its_canonical_name(endpoint: Entries, name: Seq<char>)
    requires
        json::lookup(endpoint, "protocol"@) == Some(Json::Text(name)),
    ensures
        json::lookup(normalize::protocol_normalized(endpoint), "protocol"@) == Some(
            Json::Text(
                if text::lowered(name) == "tcp"@ {
                    "tcp"@
                } else {
                    match L7Protocol::named(name) {
                        Some(protocol) => protocol.name(),
                        None => name,
                    }
                },
            ),
        ),
{
    reveal_strlit("tcp");
    let word = "tcp"@;
    assert forall|i: int| 0 <= i < word.len() implies #[trigger] text::lowered(word)[i] == word[i] by {
        assert('a' <= word[i] && word[i] <= 'z');
    }
    assert(text::lowered(word) =~= word);
    if let Some(canonical) = normalize::canonical_protocol(name) {
        json::lookup_after_set(endpoint, "protocol"@, Json::Text(canonical), "protocol"@);
    }
}

/// After the ports pass an endpoint has a list of ports: the one that it had, or
/// its single port, where it is a positive integer. The single port is gone.
pub proof fn single_port_becomes_a_list(endpoint: Entries)
    requires
        json::distinct_keys(endpoint),
    ensures
        ({
            let after = normalize::ports_normalized(endpoint);
            &&& json::lookup(after, "port"@) is None
            &&& json::lookup(after, "ports"@) == match json::lookup(endpoint, "ports"@) {
                Some(Json::Array(ports)) if ports.len() > 0 => Some(Json::Array(ports)),
                other => match json::lookup(endpoint, "port"@) {
                    Some(Json::Number(NumberModel::Integer(n))) if 0 < n <= u64::MAX => Some(
                        Json::Array(seq![Json::Number(NumberModel::Integer(n))]),
                    ),
                    _ => other,
                },
            }
        }),
{
    reveal_strlit("port");
    reveal_strlit("ports");
    assert("port"@.len() != "ports"@.len());
    let promoted = if normalize::has_ports(endpoint) {
        endpoint
    } else {
        match normalize::as_u64(json::lookup(endpoint, "port"@)) {
            Some(port) => if port > 0 {
                json::with_entry(
                    endpoint,
                    "ports"@,
                    Json::Array(seq![Json::Number(NumberModel::Integer(port))]),
                )
            } else {
                endpoint
            },
            None => endpoint,
        }
    };
    assert(normalize::ports_normalized(endpoint) == json::without_entry(promoted, "port"@));
    json::lookup_after_remove(promoted, "port"@, "ports"@);
    if let Some(port) = normalize::as_u64(json::lookup(endpoint, "port"@)) {
        json::lookup_after_set(
            endpoint,
            "ports"@,
            Json::Array(seq![Json::Number(NumberModel::Integer(port))]),
            "ports"@,
        );
    }
    json::lemma_position(endpoint, "ports"@);
    json::lemma_position(promoted, "port"@);
    let at = json::position(promoted, "port"@);
    let gone = json::without_entry(promoted, "port"@);
    json::lemma_position(gone, "port"@);
    let still = json::position(gone, "port"@);
    if still < gone.len() {
        assert(gone[still].0 == "port"@);
        if at < promoted.len() {
            let j = if still < at {
                still
            } else {
                still + 1
            };
            assert(promoted[j] == gone[still]);
            assert(promoted[j].0 == promoted[at].0);
            assert(json::distinct_keys(promoted)) by {
                let put = json::position(endpoint, "ports"@);
                if promoted != endpoint {
                    assert forall|x: int, y: int| 0 <= x < y < promoted.len() implies (
                    #[trigger] promoted[x]).0 != (#[trigger] promoted[y]).0 by {
                        if put < endpoint.len() {
                            assert(endpoint[put].0 == "ports"@);
                            assert(promoted[x].0 == endpoint[x].0);
                            assert(promoted[y].0 == endpoint[y].0);
                        } else if y < endpoint.len() {
                            assert(promoted[x] == endpoint[x]);
                            assert(promoted[y] == endpoint[y]);
                        } else {
                            assert(promoted[x] == endpoint[x]);
                            assert(endpoint[x].0 != "ports"@);
                        }
                    }
                }
            }
            if j < at {
                assert(promoted[j].0 != promoted[at].0);
            } else {
                assert(promoted[at].0 != promoted[j].0);
            }
        }
    }
}

/// Whether a matcher in runtime form stands for an authored one: a text that is
/// not empty becomes a pattern, and anything else stays.
pub open spec fn is_runtime_matcher(after: Json, authored: Json) -> bool {
    match authored {
        Json::Text(pattern) if pattern.len() > 0 => after.field("glob"@) == Some(
            Json::Text(pattern),
        ),
        _ => after == authored,
    }
}

/// Every matcher of a rule is in runtime form, under its own key and in order.
pub proof fn matchers_get_their_runtime_form(rule: Entries, field: Seq<char>, matchers: Entries)
    requires
        json::lookup(rule, field) == Some(Json::Object(matchers)),
    ensures
        json::lookup(normalize::matcher_field_normalized(rule, field), field) matches Some(
            Json::Object(after),
        ) && after.len() == matchers.len() && forall|i: int|
            #![trigger after[i]]
            0 <= i < after.len() ==> after[i].0 == matchers[i].0 && is_runtime_matcher(
                after[i].1,
                matchers[i].1,
            ),
{
    let after = normalize::matchers_normalized(matchers);
    json::lookup_after_set(rule, field, Json::Object(after), field);
    assert forall|i: int| #![trigger after[i]] 0 <= i < after.len() implies after[i].0
        == matchers[i].0 && is_runtime_matcher(after[i].1, matchers[i].1) by {
        assert(after[i] == (matchers[i].0, normalize::matcher_normalized(matchers[i].1)));
        if let Json::Text(pattern) = matchers[i].1 {
            builder_laws::found_is_lookup(
                crate::opa::builder::entry("glob"@, matchers[i].1),
                "glob"@,
            );
            builder_laws::found_entry("glob"@, matchers[i].1, "glob"@);
        }
    }
}

/// The alias `tool` of an MCP rule becomes the param `name`, unless the rule has
/// that param already. A rule that has no method then selects tool calls.
pub proof fn tool_alias_becomes_the_name_param(
    rule: Entries,
    tool: Json,
    params: Entries,
)
    requires
        json::lookup(rule, "tool"@) == Some(tool),
        !(tool is Null),
        json::lookup(rule, "params"@) == Some(Json::Object(params)),
    ensures
        ({
            let (after, selects) = normalize::tool_moved(rule);
            &&& selects
            &&& json::lookup(after, "params"@) matches Some(Json::Object(moved)) && json::lookup(
                moved,
                "name"@,
            ) == match json::lookup(params, "name"@) {
                Some(name) => Some(name),
                None => Some(tool),
            }
        }),
{
    reveal_strlit("tool");
    reveal_strlit("params");
    assert("tool"@.len() != "params"@.len());
    let bare = json::without_entry(rule, "tool"@);
    json::lookup_after_remove(rule, "tool"@, "params"@);
    let moved = normalize::with_default(params, "name"@, tool);
    json::lookup_after_set(bare, "params"@, Json::Object(moved), "params"@);
    json::lookup_after_set(params, "name"@, tool, "name"@);
}

/// Where all known methods are allowed, an MCP rule without a method selects tool
/// calls if it selects a tool, and every method otherwise. A method that is there
/// stays.
pub proof fn missing_method_is_filled_in(rule: Entries)
    ensures
        ({
            let (moved, selects) = normalize::tool_moved(rule);
            let after = normalize::mcp_rule_normalized(rule, true);
            &&& normalize::lacks_method(moved) ==> json::lookup(after, "method"@) == Some(
                Json::Text(
                    if selects {
                        "tools/call"@
                    } else {
                        "*"@
                    },
                ),
            )
            &&& !normalize::lacks_method(moved) ==> after == moved
            &&& normalize::mcp_rule_normalized(rule, false) == moved
        }),
{
    let (moved, selects) = normalize::tool_moved(rule);
    json::lookup_after_set(
        moved,
        "method"@,
        Json::Text(
            if selects {
                "tools/call"@
            } else {
                "*"@
            },
        ),
        "method"@,
    );
}

/// A pass goes over every endpoint of every policy, in place: the list of
/// policies and each list of endpoints keep their order and length.
pub proof fn pass_reaches_every_endpoint(
    data: Entries,
    policies: Entries,
    pass: EndpointPass,
    i: int,
    policy: Entries,
    endpoints: Seq<Json>,
)
    requires
        json::lookup(data, "network_policies"@) == Some(Json::Object(policies)),
        0 <= i < policies.len(),
        policies[i].1 == Json::Object(policy),
        json::lookup(policy, "endpoints"@) == Some(Json::Array(endpoints)),
    ensures
        normalize::data_passed(Json::Object(data), pass).field("network_policies"@) matches Some(
            Json::Object(after),
        ) && {
            &&& after.len() == policies.len()
            &&& after[i].0 == policies[i].0
            &&& after[i].1.field("endpoints"@) matches Some(Json::Array(passed)) && passed.len()
                == endpoints.len() && forall|j: int|
                0 <= j < passed.len() ==> #[trigger] passed[j] == normalize::endpoint_passed(
                    endpoints[j],
                    pass,
                )
        },
{
    let list = policies.map_values(
        |pair: (Seq<char>, Json)| (pair.0, normalize::policy_passed(pair.1, pass)),
    );
    json::lookup_after_set(data, "network_policies"@, Json::Object(list), "network_policies"@);
    assert(list[i] == (policies[i].0, normalize::policy_passed(policies[i].1, pass)));
    let passed = endpoints.map_values(|e: Json| normalize::endpoint_passed(e, pass));
    json::lookup_after_set(policy, "endpoints"@, Json::Array(passed), "endpoints"@);
}

/// Each pass does its own work on an endpoint.
pub proof fn passes_do_their_work(endpoint: Entries)
    ensures
        normalize::endpoint_passed(Json::Object(endpoint), EndpointPass::Protocols) == Json::Object(
            normalize::protocol_normalized(endpoint),
        ),
        normalize::endpoint_passed(Json::Object(endpoint), EndpointPass::Ports) == Json::Object(
            normalize::ports_normalized(endpoint),
        ),
        normalize::endpoint_passed(Json::Object(endpoint), EndpointPass::RuleAliases)
            == Json::Object(normalize::rules_normalized(endpoint)),
{
}

/// Allow rules and deny rules of an endpoint are both brought into runtime form,
/// each in place, under the protocol of the endpoint.
pub proof fn allow_and_deny_rules_are_normalized(
    endpoint: Entries,
    rules: Seq<Json>,
    denied: Seq<Json>,
)
    requires
        json::lookup(endpoint, "rules"@) == Some(Json::Array(rules)),
        json::lookup(endpoint, "deny_rules"@) == Some(Json::Array(denied)),
    ensures
        ({
            let after = normalize::rules_normalized(endpoint);
            let protocol = normalize::protocol_of(endpoint);
            let all = json::lookup(endpoint, "mcp_allow_all_known_mcp_methods"@) == Some(
                Json::Bool(true),
            );
            &&& json::lookup(after, "rules"@) matches Some(Json::Array(list)) && list.len()
                == rules.len() && forall|i: int|
                0 <= i < list.len() ==> #[trigger] list[i] == normalize::allow_rule_normalized(
                    rules[i],
                    protocol,
                    all,
                )
            &&& json::lookup(after, "deny_rules"@) matches Some(Json::Array(list)) && list.len()
                == denied.len() && forall|i: int|
                0 <= i < list.len() ==> #[trigger] list[i] == normalize::deny_rule_normalized(
                    denied[i],
                    protocol,
                    all,
                )
        }),
{
    reveal_strlit("rules");
    reveal_strlit("deny_rules");
    assert("rules"@.len() != "deny_rules"@.len());
    let protocol = normalize::protocol_of(endpoint);
    let all = normalize::allows_all_known(endpoint);
    let first = Json::Array(normalize::normalized_rules(rules, false, protocol, all));
    let second = Json::Array(normalize::normalized_rules(denied, true, protocol, all));
    let middle = json::with_entry(endpoint, "rules"@, first);
    json::lookup_after_set(endpoint, "rules"@, first, "rules"@);
    json::lookup_after_set(endpoint, "rules"@, first, "deny_rules"@);
    json::lookup_after_set(middle, "deny_rules"@, second, "deny_rules"@);
    json::lookup_after_set(middle, "deny_rules"@, second, "rules"@);
}

/// Whether what was found is absent or an array of objects.
pub open spec fn is_objects_if_any(found: Option<Json>) -> bool {
    match found {
        None => true,
        Some(Json::Array(items)) => forall|i: int|
            0 <= i < items.len() ==> #[trigger] items[i] is Object,
        Some(_) => false,
    }
}

/// Whether a policy has the shape that the policy rules rely on.
pub open spec fn is_policy_shape(policy: Json) -> bool {
    &&& policy is Object
    &&& is_objects_if_any(policy.field("endpoints"@))
    &&& is_objects_if_any(policy.field("binaries"@))
    &&& policy.field("endpoints"@) matches Some(Json::Array(endpoints)) ==> forall|i: int|
        0 <= i < endpoints.len() ==> is_objects_if_any(
            (#[trigger] endpoints[i]).field("rules"@),
        ) && is_objects_if_any(endpoints[i].field("deny_rules"@))
}

/// Whether a document has the shape that the policy rules rely on.
pub open spec fn is_data_shape(data: Json) -> bool {
    &&& data is Object
    &&& data.field("filesystem_policy"@) matches Some(section) ==> section is Object
    &&& data.field("landlock"@) matches Some(section) ==> section is Object
    &&& data.field("process"@) matches Some(section) ==> section is Object
    &&& data.field("network_middlewares"@) matches Some(section) ==> (
    section matches Json::Object(list) && forall|i: int|
        0 <= i < list.len() ==> (#[trigger] list[i]).1 is Object)
    &&& data.field("network_policies"@) matches Some(section) ==> (
    section matches Json::Object(list) && forall|i: int|
        0 <= i < list.len() ==> is_policy_shape((#[trigger] list[i]).1))
}

proof fn lemma_endpoints_shape(endpoints: Seq<Json>)
    ensures
        structure::endpoints_fault(endpoints) is None <==> forall|i: int|
            0 <= i < endpoints.len() ==> is_objects_if_any(
                (#[trigger] endpoints[i]).field("rules"@),
            ) && is_objects_if_any(endpoints[i].field("deny_rules"@)),
    decreases endpoints.len(),
{
    if endpoints.len() > 0 {
        let rest = endpoints.skip(1);
        lemma_endpoints_shape(rest);
        assert forall|i: int| 0 <= i < rest.len() implies #[trigger] rest[i] == endpoints[i + 1] by {}
        if structure::endpoints_fault(endpoints) is None {
            assert forall|i: int| 0 <= i < endpoints.len() implies is_objects_if_any(
                (#[trigger] endpoints[i]).field("rules"@),
            ) && is_objects_if_any(endpoints[i].field("deny_rules"@)) by {
                if i > 0 {
                    assert(rest[i - 1] == endpoints[i]);
                }
            }
        } else if forall|i: int|
            0 <= i < endpoints.len() ==> is_objects_if_any(
                (#[trigger] endpoints[i]).field("rules"@),
            ) && is_objects_if_any(endpoints[i].field("deny_rules"@)) {
            assert forall|i: int| 0 <= i < rest.len() implies is_objects_if_any(
                (#[trigger] rest[i]).field("rules"@),
            ) && is_objects_if_any(rest[i].field("deny_rules"@)) by {
                assert(rest[i] == endpoints[i + 1]);
            }
            assert(is_objects_if_any(endpoints[0].field("rules"@)));
        }
    }
}

proof fn lemma_policies_shape(policies: Entries)
    ensures
        structure::policies_fault(policies) is None <==> forall|i: int|
            0 <= i < policies.len() ==> is_policy_shape((#[trigger] policies[i]).1),
    decreases policies.len(),
{
    if policies.len() > 0 {
        let rest = policies.skip(1);
        lemma_policies_shape(rest);
        assert(structure::policy_fault(policies[0].1) is None <==> is_policy_shape(policies[0].1)) by {
            if let Json::Object(object) = policies[0].1 {
                if let Some(Json::Array(items)) = json::lookup(object, "endpoints"@) {
                    lemma_endpoints_shape(items);
                }
            }
        }
        assert forall|i: int| 0 <= i < rest.len() implies #[trigger] rest[i] == policies[i + 1] by {}
        if structure::policies_fault(policies) is None {
            assert forall|i: int| 0 <= i < policies.len() implies is_policy_shape(
                (#[trigger] policies[i]).1,
            ) by {
                if i > 0 {
                    assert(rest[i - 1] == policies[i]);
                }
            }
        } else if forall|i: int|
            0 <= i < policies.len() ==> is_policy_shape((#[trigger] policies[i]).1) {
            assert forall|i: int| 0 <= i < rest.len() implies is_policy_shape(
                (#[trigger] rest[i]).1,
            ) by {
                assert(rest[i] == policies[i + 1]);
            }
            assert(is_policy_shape(policies[0].1));
        }
    }
}

/// A document is accepted if it has the shape that the policy rules rely on, and
/// refused otherwise.
pub proof fn only_well_shaped_data_is_accepted(data: Json)
    ensures
        structure::structure_fault(data) is None <==> is_data_shape(data),
{
    if let Json::Object(root) = data {
        if let Some(Json::Object(policies)) = json::lookup(root, "network_policies"@) {
            lemma_policies_shape(policies);
        }
    }
}

proof fn lemma_rendered(rendered: Seq<char>, categories: Seq<Seq<char>>, index: int)
    requires
        1 <= index <= categories.len() <= 8,
        diagnostics::size(rendered) + diagnostics::size(
            rest_of(categories, index),
        ) + diagnostics::size("; additional violations omitted"@) <= 512,
    ensures
        diagnostics::rendered_on(rendered, categories, index) == rendered + rest_of(
            categories,
            index,
        ),
    decreases categories.len() - index,
{
    let rest = rest_of(categories, index);
    if index < categories.len() {
        let piece = "; "@ + categories[index];
        let more = rest_of(categories, index + 1);
        assert(rest == piece + more);
        diagnostics::lemma_encode_add(piece, more);
        diagnostics::lemma_encode_add("; "@, categories[index]);
        diagnostics::lemma_encode_add(rendered, piece);
        let next = rendered + "; "@ + categories[index];
        assert(next == rendered + piece);
        lemma_rendered(next, categories, index + 1);
        assert(next + more == rendered + rest);
    } else {
        assert(rendered + rest == rendered);
    }
}

/// Categories from a position on, each behind a semicolon.
pub open spec fn rest_of(categories: Seq<Seq<char>>, index: int) -> Seq<char>
    decreases categories.len() - index,
{
    if index < 0 || index >= categories.len() {
        Seq::empty()
    } else {
        ("; "@ + categories[index]) + rest_of(categories, index + 1)
    }
}

/// A policy-load error of few and short violations names every one of them, in
/// order, behind its heading.
pub proof fn short_diagnostic_names_every_violation(
    heading: Seq<char>,
    categories: Seq<Seq<char>>,
)
    requires
        1 <= categories.len() <= 8,
        diagnostics::size(heading) + diagnostics::size(": "@ + categories[0]) + diagnostics::size(
            rest_of(categories, 1),
        ) + diagnostics::size("; additional violations omitted"@) <= 512,
    ensures
        diagnostics::bounded(heading, categories) == heading + (": "@ + categories[0]) + rest_of(
            categories,
            1,
        ),
        diagnostics::bounded(heading, Seq::empty()) == heading,
{
    let first = ": "@ + categories[0];
    diagnostics::lemma_encode_add(": "@, categories[0]);
    diagnostics::lemma_encode_add(heading, first);
    let next = heading + ": "@ + categories[0];
    assert(next == heading + first);
    lemma_rendered(next, categories, 1);
}

/// A policy-load error that leaves violations out says so at its end.
pub proof fn long_diagnostic_says_what_it_leaves_out(
    rendered: Seq<char>,
    categories: Seq<Seq<char>>,
    index: int,
)
    requires
        0 <= index <= 8 < categories.len(),
    ensures
        ({
            let shown = diagnostics::rendered_on(rendered, categories, index);
            exists|front: Seq<char>|
                #[trigger] (front + "; additional violations omitted"@) == shown
        }),
    decreases 9 - index,
{
    if diagnostics::is_left_out(rendered, categories[index], index) {
        assert(rendered + "; additional violations omitted"@ == diagnostics::rendered_on(
            rendered,
            categories,
            index,
        ));
    } else {
        long_diagnostic_says_what_it_leaves_out(
            rendered + diagnostics::separator(index) + categories[index],
            categories,
            index + 1,
        );
    }
}

} // verus!
