//! The shape of policy data: what normalizers and rules walk through must be
//! there as objects and arrays, or be absent.

use crate::json;
use crate::json::{Json, JsonValue};
use crate::opa::builder::Entries;
use crate::opa::normalize::find_value;
use vstd::prelude::*;

verus! {

broadcast use json::group_json_views;

/// Whether all values are objects.
pub open spec fn all_objects(items: Seq<Json>) -> bool {
    forall|i: int| 0 <= i < items.len() ==> #[trigger] items[i] is Object
}

/// Why a value is no array of objects, if it is there and is none. `field`
/// names it.
pub open spec fn object_array_fault(value: Option<Json>, field: Seq<char>) -> Option<Seq<char>> {
    match value {
        None => None,
        Some(Json::Array(items)) => if all_objects(items) {
            None
        } else {
            Some(field + " entries must be objects"@)
        },
        Some(_) => Some(field + " must be an array"@),
    }
}

/// Why a value is no object, if it is there and is none.
pub open spec fn object_fault(value: Option<Json>, field: Seq<char>) -> Option<Seq<char>> {
    match value {
        None => None,
        Some(Json::Object(_)) => None,
        Some(_) => Some(field + " must be an object"@),
    }
}

/// The first of two faults.
pub open spec fn first_of(a: Option<Seq<char>>, b: Option<Seq<char>>) -> Option<Seq<char>> {
    match a {
        Some(fault) => Some(fault),
        None => b,
    }
}

/// The fault in the rules of an endpoint, if there is one.
pub open spec fn endpoint_fault(endpoint: Json) -> Option<Seq<char>> {
    first_of(
        object_array_fault(endpoint.field("rules"@), "network endpoint rules"@),
        object_array_fault(endpoint.field("deny_rules"@), "network endpoint deny_rules"@),
    )
}

/// The first fault in the rules of endpoints, if there is one.
pub open spec fn endpoints_fault(endpoints: Seq<Json>) -> Option<Seq<char>>
    decreases endpoints.len(),
{
    if endpoints.len() == 0 {
        None
    } else {
        first_of(endpoint_fault(endpoints[0]), endpoints_fault(endpoints.skip(1)))
    }
}

/// The first fault in a network policy, if there is one.
pub open spec fn policy_fault(policy: Json) -> Option<Seq<char>> {
    match policy {
        Json::Object(object) => {
            let endpoints = json::lookup(object, "endpoints"@);
            match object_array_fault(endpoints, "network policy endpoints"@) {
                Some(fault) => Some(fault),
                None => first_of(
                    match endpoints {
                        Some(Json::Array(items)) => endpoints_fault(items),
                        _ => None,
                    },
                    object_array_fault(
                        json::lookup(object, "binaries"@),
                        "network policy binaries"@,
                    ),
                ),
            }
        },
        _ => Some("network policy entries must be objects"@),
    }
}

/// The first fault in network policies, if there is one.
pub open spec fn policies_fault(policies: Entries) -> Option<Seq<char>>
    decreases policies.len(),
{
    if policies.len() == 0 {
        None
    } else {
        first_of(policy_fault(policies[0].1), policies_fault(policies.skip(1)))
    }
}

/// Whether all values of an object are objects.
pub open spec fn all_object_values(object: Entries) -> bool {
    forall|i: int| 0 <= i < object.len() ==> (#[trigger] object[i]).1 is Object
}

/// The fault in the middlewares, if there is one.
pub open spec fn middlewares_fault(value: Option<Json>) -> Option<Seq<char>> {
    match value {
        None => None,
        Some(Json::Object(middlewares)) => if all_object_values(middlewares) {
            None
        } else {
            Some("network middleware entries must be objects"@)
        },
        Some(_) => Some("network_middlewares must be an object"@),
    }
}

/// The first fault in the shape of policy data, if there is one.
pub open spec fn structure_fault(data: Json) -> Option<Seq<char>> {
    match data {
        Json::Object(root) => first_of(
            first_of(
                first_of(
                    first_of(
                        object_fault(
                            json::lookup(root, "filesystem_policy"@),
                            "filesystem_policy"@,
                        ),
                        object_fault(json::lookup(root, "landlock"@), "landlock"@),
                    ),
                    object_fault(json::lookup(root, "process"@), "process"@),
                ),
                middlewares_fault(json::lookup(root, "network_middlewares"@)),
            ),
            match json::lookup(root, "network_policies"@) {
                None => None,
                Some(Json::Object(policies)) => policies_fault(policies),
                Some(_) => Some("network_policies must be an object"@),
            },
        ),
        _ => Some("OPA policy data must be an object"@),
    }
}

/// The text of a fault, if there is one.
pub open spec fn fault_of(fault: Option<String>) -> Option<Seq<char>> {
    match fault {
        Some(text) => Some(text@),
        None => None,
    }
}

/// What a value denotes, if it is there.
pub open spec fn value_of(value: Option<&JsonValue>) -> Option<Json> {
    match value {
        Some(v) => Some(v@),
        None => None,
    }
}

fn joined(field: &str, rest: &str) -> (r: String)
    ensures
        r@ == field@ + rest@,
{
    let mut r = field.to_string();
    r.append(rest);
    r
}

/// Checks that a value, where it is there, is an array of objects.
pub fn validate_opa_object_array(value: Option<&JsonValue>, field: &str) -> (fault: Option<String>)
    ensures
        fault_of(fault) == object_array_fault(value_of(value), field@),
{
    let items = match value {
        None => {
            return None;
        },
        Some(JsonValue::Array(items)) => items,
        Some(_) => {
            return Some(joined(field, " must be an array"));
        },
    };
    let ghost all = json::values(items@);
    let mut i: usize = 0;
    while i < items.len()
        invariant
            i <= items@.len(),
            all == json::values(items@),
            value_of(value) == Some(Json::Array(all)),
            forall|k: int| 0 <= k < i ==> #[trigger] all[k] is Object,
        decreases items@.len() - i,
    {
        assert(all[i as int] == items@[i as int]@);
        match &items[i] {
            JsonValue::Object(_) => {},
            _ => {
                assert(!(all[i as int] is Object));
                return Some(joined(field, " entries must be objects"));
            },
        }
        i += 1;
    }
    None
}

fn validate_object(value: Option<&JsonValue>, field: &str) -> (fault: Option<String>)
    ensures
        fault_of(fault) == object_fault(value_of(value), field@),
{
    match value {
        None | Some(JsonValue::Object(_)) => None,
        Some(_) => Some(joined(field, " must be an object")),
    }
}

fn validate_endpoints(items: &Vec<JsonValue>) -> (fault: Option<String>)
    ensures
        fault_of(fault) == endpoints_fault(json::values(items@)),
{
    let ghost all = json::values(items@);
    let mut i: usize = 0;
    assert(all.skip(0) == all);
    while i < items.len()
        invariant
            i <= items@.len(),
            all == json::values(items@),
            endpoints_fault(all) == endpoints_fault(all.skip(i as int)),
        decreases items@.len() - i,
    {
        assert(all.skip(i as int)[0] == items@[i as int]@);
        assert(all.skip(i as int).skip(1) == all.skip(i + 1));
        let fault = validate_opa_object_array(items[i].get("rules"), "network endpoint rules");
        if fault.is_some() {
            return fault;
        }
        let fault = validate_opa_object_array(
            items[i].get("deny_rules"),
            "network endpoint deny_rules",
        );
        if fault.is_some() {
            return fault;
        }
        i += 1;
    }
    None
}

fn validate_policy(policy: &JsonValue) -> (fault: Option<String>)
    ensures
        fault_of(fault) == policy_fault(policy@),
{
    let object = match policy {
        JsonValue::Object(object) => object,
        _ => {
            return Some("network policy entries must be objects".to_string());
        },
    };
    let endpoints = find_value(object, "endpoints");
    let fault = validate_opa_object_array(endpoints, "network policy endpoints");
    if fault.is_some() {
        return fault;
    }
    if let Some(JsonValue::Array(items)) = endpoints {
        let fault = validate_endpoints(items);
        if fault.is_some() {
            return fault;
        }
    }
    validate_opa_object_array(find_value(object, "binaries"), "network policy binaries")
}

fn validate_policies(policies: &Vec<(String, JsonValue)>) -> (fault: Option<String>)
    ensures
        fault_of(fault) == policies_fault(json::entries(policies@)),
{
    let ghost all = json::entries(policies@);
    let mut i: usize = 0;
    assert(all.skip(0) == all);
    while i < policies.len()
        invariant
            i <= policies@.len(),
            all == json::entries(policies@),
            policies_fault(all) == policies_fault(all.skip(i as int)),
        decreases policies@.len() - i,
    {
        assert(all.skip(i as int)[0] == (policies@[i as int].0@, policies@[i as int].1@));
        assert(all.skip(i as int).skip(1) == all.skip(i + 1));
        let fault = validate_policy(&policies[i].1);
        if fault.is_some() {
            return fault;
        }
        i += 1;
    }
    None
}

fn validate_middlewares(value: Option<&JsonValue>) -> (fault: Option<String>)
    ensures
        fault_of(fault) == middlewares_fault(value_of(value)),
{
    let middlewares = match value {
        None => {
            return None;
        },
        Some(JsonValue::Object(middlewares)) => middlewares,
        Some(_) => {
            return Some("network_middlewares must be an object".to_string());
        },
    };
    let ghost all = json::entries(middlewares@);
    let mut i: usize = 0;
    while i < middlewares.len()
        invariant
            i <= middlewares@.len(),
            all == json::entries(middlewares@),
            value_of(value) == Some(Json::Object(all)),
            forall|k: int| 0 <= k < i ==> (#[trigger] all[k]).1 is Object,
        decreases middlewares@.len() - i,
    {
        assert(all[i as int].1 == middlewares@[i as int].1@);
        match &middlewares[i].1 {
            JsonValue::Object(_) => {},
            _ => {
                assert(!(all[i as int].1 is Object));
                return Some("network middleware entries must be objects".to_string());
            },
        }
        i += 1;
    }
    None
}

/// Checks the shape of policy data and gives the first fault. Its text is
/// fixed: it neither grows with the data nor shows names or values.
pub fn validate_opa_data_structure(data: &JsonValue) -> (fault: Option<String>)
    ensures
        fault_of(fault) == structure_fault(data@),
{
    let root = match data {
        JsonValue::Object(root) => root,
        _ => {
            return Some("OPA policy data must be an object".to_string());
        },
    };
    let fault = validate_object(find_value(root, "filesystem_policy"), "filesystem_policy");
    if fault.is_some() {
        return fault;
    }
    let fault = validate_object(find_value(root, "landlock"), "landlock");
    if fault.is_some() {
        return fault;
    }
    let fault = validate_object(find_value(root, "process"), "process");
    if fault.is_some() {
        return fault;
    }
    let fault = validate_middlewares(find_value(root, "network_middlewares"));
    if fault.is_some() {
        return fault;
    }
    match find_value(root, "network_policies") {
        None => None,
        Some(JsonValue::Object(policies)) => validate_policies(policies),
        Some(_) => Some("network_policies must be an object".to_string()),
    }
}

/// Whether a text is one of the fixed diagnostics of an array of objects.
pub open spec fn is_array_diagnostic(fault: Seq<char>, field: Seq<char>) -> bool {
    fault == field + " must be an array"@ || fault == field + " entries must be objects"@
}

/// Whether a text is one of the fixed diagnostics of network policies.
pub open spec fn is_policy_diagnostic(fault: Seq<char>) -> bool {
    ||| fault == "network policy entries must be objects"@
    ||| is_array_diagnostic(fault, "network policy endpoints"@)
    ||| is_array_diagnostic(fault, "network policy binaries"@)
    ||| is_array_diagnostic(fault, "network endpoint rules"@)
    ||| is_array_diagnostic(fault, "network endpoint deny_rules"@)
}

/// Whether a text is one of the fixed diagnostics of policy data.
pub open spec fn is_fixed_diagnostic(fault: Seq<char>) -> bool {
    ||| fault == "OPA policy data must be an object"@
    ||| fault == "filesystem_policy"@ + " must be an object"@
    ||| fault == "landlock"@ + " must be an object"@
    ||| fault == "process"@ + " must be an object"@
    ||| fault == "network_middlewares must be an object"@
    ||| fault == "network middleware entries must be objects"@
    ||| fault == "network_policies must be an object"@
    ||| is_policy_diagnostic(fault)
}

proof fn lemma_endpoints_diagnostic(endpoints: Seq<Json>)
    ensures
        endpoints_fault(endpoints) matches Some(fault) ==> is_policy_diagnostic(fault),
    decreases endpoints.len(),
{
    if endpoints.len() > 0 {
        lemma_endpoints_diagnostic(endpoints.skip(1));
    }
}

proof fn lemma_policies_diagnostic(policies: Entries)
    ensures
        policies_fault(policies) matches Some(fault) ==> is_policy_diagnostic(fault),
    decreases policies.len(),
{
    if policies.len() > 0 {
        lemma_policies_diagnostic(policies.skip(1));
        if let Some(endpoints) = policies[0].1.array_field("endpoints"@) {
            lemma_endpoints_diagnostic(endpoints);
        }
    }
}

/// The diagnostic of malformed data is one of a fixed list, whatever the data:
/// it cannot show authored names, paths or values, nor grow with them.
pub proof fn structure_diagnostic_is_fixed(data: Json)
    ensures
        structure_fault(data) matches Some(fault) ==> is_fixed_diagnostic(fault),
{
    if let Some(Json::Object(policies)) = data.field("network_policies"@) {
        lemma_policies_diagnostic(policies);
    }
}

} // verus!
