//! Nested protocol configuration of endpoints, lowered to runtime fields.
//!
//! What a stanza lowers to is decided by the policy schema. The library says
//! which stanzas are to be lowered, and puts the results in their places.

use crate::json;
use crate::json::{Json, JsonValue};
use crate::json_access::{remove_entry, set_entry};
use crate::numeral;
use crate::numeral::{numeral_of, Base};
use crate::opa::builder::Entries;
use crate::opa::normalize::{copy_entries, find_value};
use crate::text;
use crate::text::{same, same_ignoring_case};
use vstd::prelude::*;

verus! {

broadcast use json::group_json_views;

/// A nested configuration stanza of endpoints.
#[derive(Debug)]
pub struct ConfigStanza {
    pub key: String,
    pub is_mcp: bool,
}

/// What the lowering of a stanza gave: runtime fields, or why there are none.
pub type Outcome = Result<Vec<(String, JsonValue)>, String>;

/// What a stanza lowers to: runtime fields, or why it lowers to none.
pub type Lowering = Result<Entries, Seq<char>>;

/// What the lowering of a stanza gave.
pub open spec fn lowering(outcome: Outcome) -> Lowering {
    match outcome {
        Ok(fields) => Ok(json::entries(fields@)),
        Err(detail) => Err(detail@),
    }
}

/// What the lowering of the stanzas of an endpoint gave.
pub open spec fn lowerings(list: Seq<Outcome>) -> Seq<Lowering> {
    list.map_values(|outcome: Outcome| lowering(outcome))
}

/// What the lowering of the stanzas of the endpoints of a policy gave.
pub open spec fn policy_lowerings(list: Seq<Vec<Outcome>>) -> Seq<Seq<Lowering>> {
    list.map_values(|outcomes: Vec<Outcome>| lowerings(outcomes@))
}

/// What the lowering of the stanzas of all endpoints gave, by policy.
pub open spec fn lowering_table(table: Seq<Vec<Vec<Outcome>>>) -> Seq<Seq<Seq<Lowering>>> {
    table.map_values(|list: Vec<Vec<Outcome>>| policy_lowerings(list@))
}

/// An endpoint and the faults found so far.
#[verifier::ext_equal]
pub struct Lowered {
    pub endpoint: Entries,
    pub errors: Seq<Seq<char>>,
}

/// An endpoint without a JSON-RPC stanza where it has an MCP stanza, which
/// takes precedence.
pub open spec fn preferred(endpoint: Entries) -> Entries {
    if json::lookup(endpoint, "mcp"@) is Some {
        json::without_entry(endpoint, "json_rpc"@)
    } else {
        endpoint
    }
}

/// An endpoint with lowered fields put in, each unless it is there. MCP
/// versions may not be given both ways.
pub open spec fn merged(start: Lowered, location: Seq<char>, fields: Entries, is_mcp: bool) -> Lowered
    decreases fields.len(),
{
    if fields.len() == 0 {
        start
    } else {
        let before = merged(start, location, fields.drop_last(), is_mcp);
        let (name, value) = fields.last();
        let there = json::lookup(before.endpoint, name) is Some;
        if is_mcp && name == "mcp_versions"@ && there {
            Lowered {
                errors: before.errors.push(
                    location + ": mcp.versions and mcp_versions cannot both be set"@,
                ),
                ..before
            }
        } else if there {
            before
        } else {
            Lowered { endpoint: json::with_entry(before.endpoint, name, value), ..before }
        }
    }
}

/// An endpoint with one stanza replaced by what it lowers to.
pub open spec fn stanza_lowered(
    before: Lowered,
    location: Seq<char>,
    stanza: ConfigStanza,
    outcome: Lowering,
) -> Lowered {
    let key = stanza.key@;
    match json::lookup(before.endpoint, key) {
        None => before,
        Some(Json::Null) => Lowered {
            endpoint: json::without_entry(before.endpoint, key),
            errors: if stanza.is_mcp {
                before.errors.push(location + "."@ + key + ": mcp config must be an object"@)
            } else {
                before.errors
            },
        },
        Some(_) => match outcome {
            Ok(fields) => merged(
                Lowered { endpoint: json::without_entry(before.endpoint, key), ..before },
                location,
                fields,
                stanza.is_mcp,
            ),
            Err(detail) => Lowered {
                errors: before.errors.push(location + "."@ + key + ": "@ + detail),
                ..before
            },
        },
    }
}

/// The outcome at a position. That there is none is a fault of the stanza.
pub open spec fn outcome_at(outcomes: Seq<Lowering>, at: int) -> Lowering {
    if 0 <= at < outcomes.len() {
        outcomes[at]
    } else {
        Err("configuration was not lowered"@)
    }
}

/// An endpoint with the first `n` stanzas replaced by what they lower to.
pub open spec fn stanzas_lowered(
    start: Lowered,
    location: Seq<char>,
    stanzas: Seq<ConfigStanza>,
    outcomes: Seq<Lowering>,
    n: int,
) -> Lowered
    decreases n,
{
    if n <= 0 || n > stanzas.len() {
        start
    } else {
        stanza_lowered(
            stanzas_lowered(start, location, stanzas, outcomes, n - 1),
            location,
            stanzas[n - 1],
            outcome_at(outcomes, n - 1),
        )
    }
}

/// Whether an endpoint is an MCP endpoint that lacks its versions.
pub open spec fn lacks_versions(endpoint: Entries) -> bool {
    &&& json::lookup(endpoint, "protocol"@) matches Some(Json::Text(protocol)) && text::lowered(
        protocol,
    ) == text::lowered("mcp"@)
    &&& json::lookup(endpoint, "mcp_versions"@) is None
}

/// An object with fields set.
pub open spec fn with_fields(object: Entries, fields: Entries) -> Entries
    decreases fields.len(),
{
    if fields.len() == 0 {
        object
    } else {
        json::with_entry(
            with_fields(object, fields.drop_last()),
            fields.last().0,
            fields.last().1,
        )
    }
}

/// An endpoint with its stanzas lowered. The runtime needs the MCP fields even
/// where the stanza is left out, so they get their defaults.
pub open spec fn endpoint_lowered(
    endpoint: Entries,
    errors: Seq<Seq<char>>,
    location: Seq<char>,
    stanzas: Seq<ConfigStanza>,
    outcomes: Seq<Lowering>,
    mcp_default: Lowering,
) -> Lowered {
    let after = stanzas_lowered(
        Lowered { endpoint: preferred(endpoint), errors },
        location,
        stanzas,
        outcomes,
        stanzas.len() as int,
    );
    if lacks_versions(after.endpoint) {
        match mcp_default {
            Ok(fields) => Lowered { endpoint: with_fields(after.endpoint, fields), ..after },
            Err(detail) => Lowered {
                errors: after.errors.push(location + ".mcp: "@ + detail),
                ..after
            },
        }
    } else {
        after
    }
}

/// The location of an endpoint.
pub open spec fn location_of(policy: Seq<char>, index: int) -> Seq<char> {
    "network_policies."@ + policy + ".endpoints["@ + numeral::numeral(index as nat, Base::Decimal)
        + "]"@
}

/// Endpoints with their stanzas lowered, and the faults so far.
#[verifier::ext_equal]
pub struct LoweredList {
    pub items: Seq<Json>,
    pub errors: Seq<Seq<char>>,
}

/// The outcomes for an endpoint, if there are any.
pub open spec fn outcomes_at(list: Seq<Seq<Lowering>>, at: int) -> Seq<Lowering> {
    if 0 <= at < list.len() {
        list[at]
    } else {
        seq![]
    }
}

/// The endpoints of a policy with their stanzas lowered.
pub open spec fn endpoints_lowered(
    items: Seq<Json>,
    errors: Seq<Seq<char>>,
    policy: Seq<char>,
    stanzas: Seq<ConfigStanza>,
    outcomes: Seq<Seq<Lowering>>,
    mcp_default: Lowering,
) -> LoweredList
    decreases items.len(),
{
    if items.len() == 0 {
        LoweredList { items: seq![], errors }
    } else {
        let before = endpoints_lowered(
            items.drop_last(),
            errors,
            policy,
            stanzas,
            outcomes,
            mcp_default,
        );
        match items.last() {
            Json::Object(endpoint) => {
                let after = endpoint_lowered(
                    endpoint,
                    before.errors,
                    location_of(policy, items.len() - 1),
                    stanzas,
                    outcomes_at(outcomes, items.len() - 1),
                    mcp_default,
                );
                LoweredList {
                    items: before.items.push(Json::Object(after.endpoint)),
                    errors: after.errors,
                }
            },
            other => LoweredList { items: before.items.push(other), ..before },
        }
    }
}

/// A network policy with the stanzas of its endpoints lowered.
pub open spec fn policy_lowered(
    policy: Json,
    errors: Seq<Seq<char>>,
    name: Seq<char>,
    stanzas: Seq<ConfigStanza>,
    outcomes: Seq<Seq<Lowering>>,
    mcp_default: Lowering,
) -> (Json, Seq<Seq<char>>) {
    match policy.array_field("endpoints"@) {
        Some(items) => {
            let after = endpoints_lowered(items, errors, name, stanzas, outcomes, mcp_default);
            (
                Json::Object(
                    json::with_entry(
                        policy->Object_0,
                        "endpoints"@,
                        Json::Array(after.items),
                    ),
                ),
                after.errors,
            )
        },
        None => (policy, errors),
    }
}

/// The outcomes for a policy, if there are any.
pub open spec fn policy_outcomes(table: Seq<Seq<Seq<Lowering>>>, at: int) -> Seq<Seq<Lowering>> {
    if 0 <= at < table.len() {
        table[at]
    } else {
        seq![]
    }
}

/// Network policies with the stanzas of their endpoints lowered, and the
/// faults.
pub open spec fn policies_lowered(
    policies: Entries,
    stanzas: Seq<ConfigStanza>,
    table: Seq<Seq<Seq<Lowering>>>,
    mcp_default: Lowering,
) -> (Entries, Seq<Seq<char>>)
    decreases policies.len(),
{
    if policies.len() == 0 {
        (seq![], seq![])
    } else {
        let (before, errors) = policies_lowered(
            policies.drop_last(),
            stanzas,
            table,
            mcp_default,
        );
        let (name, policy) = policies.last();
        let (after, more) = policy_lowered(
            policy,
            errors,
            name,
            stanzas,
            policy_outcomes(table, policies.len() - 1),
            mcp_default,
        );
        (before.push((name, after)), more)
    }
}

/// Policy data with the stanzas of its endpoints lowered, and the faults.
pub open spec fn data_lowered(
    data: Json,
    stanzas: Seq<ConfigStanza>,
    table: Seq<Seq<Seq<Lowering>>>,
    mcp_default: Lowering,
) -> (Json, Seq<Seq<char>>) {
    match data.field("network_policies"@) {
        Some(Json::Object(policies)) => {
            let (after, errors) = policies_lowered(policies, stanzas, table, mcp_default);
            (
                Json::Object(
                    json::with_entry(data->Object_0, "network_policies"@, Json::Object(after)),
                ),
                errors,
            )
        },
        _ => (data, seq![]),
    }
}

/// The configuration of each stanza of an endpoint that is to be lowered.
pub open spec fn configs(endpoint: Entries, stanzas: Seq<ConfigStanza>) -> Seq<Option<Json>> {
    stanzas.map_values(
        |stanza: ConfigStanza|
            match json::lookup(preferred(endpoint), stanza.key@) {
                Some(Json::Null) => None,
                other => other,
            },
    )
}

/// The configurations of the endpoints of a policy that are to be lowered.
pub open spec fn policy_configs(policy: Json, stanzas: Seq<ConfigStanza>) -> Seq<
    Seq<Option<Json>>,
> {
    match policy.array_field("endpoints"@) {
        Some(items) => items.map_values(
            |item: Json|
                match item {
                    Json::Object(endpoint) => configs(endpoint, stanzas),
                    _ => seq![],
                },
        ),
        None => seq![],
    }
}

/// The configurations of policy data that are to be lowered, by policy,
/// endpoint and stanza.
pub open spec fn data_configs(data: Json, stanzas: Seq<ConfigStanza>) -> Seq<
    Seq<Seq<Option<Json>>>,
> {
    match data.field("network_policies"@) {
        Some(Json::Object(policies)) => policies.map_values(
            |pair: (Seq<char>, Json)| policy_configs(pair.1, stanzas),
        ),
        _ => seq![],
    }
}

/// What a configuration that may be absent denotes.
pub open spec fn config_model(config: Option<JsonValue>) -> Option<Json> {
    match config {
        Some(value) => Some(value@),
        None => None,
    }
}

/// What the configurations of an endpoint denote.
pub open spec fn config_models(list: Seq<Option<JsonValue>>) -> Seq<Option<Json>> {
    list.map_values(|config: Option<JsonValue>| config_model(config))
}

/// What the configurations of a policy denote.
pub open spec fn policy_config_models(list: Seq<Vec<Option<JsonValue>>>) -> Seq<
    Seq<Option<Json>>,
> {
    list.map_values(|configs: Vec<Option<JsonValue>>| config_models(configs@))
}

/// What the configurations of policy data denote.
pub open spec fn config_table(table: Seq<Vec<Vec<Option<JsonValue>>>>) -> Seq<
    Seq<Seq<Option<Json>>>,
> {
    table.map_values(|list: Vec<Vec<Option<JsonValue>>>| policy_config_models(list@))
}

/// A field that stands in an endpoint keeps its value when a stanza under
/// another key is lowered: separately lowered fields stay intact.
pub proof fn lowering_keeps_present_fields(
    before: Lowered,
    location: Seq<char>,
    stanza: ConfigStanza,
    outcome: Lowering,
    field: Seq<char>,
)
    requires
        field != stanza.key@,
        json::lookup(before.endpoint, field) is Some,
    ensures
        json::lookup(stanza_lowered(before, location, stanza, outcome).endpoint, field)
            == json::lookup(before.endpoint, field),
{
    let bare = Lowered { endpoint: json::without_entry(before.endpoint, stanza.key@), ..before };
    json::lookup_after_remove(before.endpoint, stanza.key@, field);
    if let Ok(fields) = outcome {
        lemma_merged_keeps(bare, location, fields, stanza.is_mcp, field);
    }
}

proof fn lemma_merged_keeps(
    start: Lowered,
    location: Seq<char>,
    fields: Entries,
    is_mcp: bool,
    field: Seq<char>,
)
    requires
        json::lookup(start.endpoint, field) is Some,
    ensures
        json::lookup(merged(start, location, fields, is_mcp).endpoint, field) == json::lookup(
            start.endpoint,
            field,
        ),
    decreases fields.len(),
{
    if fields.len() > 0 {
        lemma_merged_keeps(start, location, fields.drop_last(), is_mcp, field);
        let before = merged(start, location, fields.drop_last(), is_mcp);
        json::lookup_after_set(before.endpoint, fields.last().0, fields.last().1, field);
    }
}

fn push_error(errors: &mut Vec<String>, error: String)
    ensures
        text::texts(final(errors)@) == text::texts(old(errors)@).push(error@),
{
    let ghost before = text::texts(errors@);
    let ghost added = error@;
    errors.push(error);
    assert(text::texts(errors@) == before.push(added));
}

fn prefer_mcp(endpoint: &mut Vec<(String, JsonValue)>)
    ensures
        json::entries(final(endpoint)@) == preferred(json::entries(old(endpoint)@)),
{
    if find_value(endpoint, "mcp").is_some() {
        let _removed = remove_entry(endpoint, "json_rpc");
    }
}

fn merge_fields(
    endpoint: &mut Vec<(String, JsonValue)>,
    errors: &mut Vec<String>,
    location: &str,
    fields: &Vec<(String, JsonValue)>,
    is_mcp: bool,
)
    ensures
        (Lowered {
            endpoint: json::entries(final(endpoint)@),
            errors: text::texts(final(errors)@),
        }) == merged(
            Lowered {
                endpoint: json::entries(old(endpoint)@),
                errors: text::texts(old(errors)@),
            },
            location@,
            json::entries(fields@),
            is_mcp,
        ),
{
    let ghost all = json::entries(fields@);
    let ghost start = Lowered {
        endpoint: json::entries(endpoint@),
        errors: text::texts(errors@),
    };
    let mut i: usize = 0;
    while i < fields.len()
        invariant
            i <= fields@.len(),
            all == json::entries(fields@),
            (Lowered { endpoint: json::entries(endpoint@), errors: text::texts(errors@) })
                == merged(start, location@, all.take(i as int), is_mcp),
        decreases fields@.len() - i,
    {
        assert(all.take(i + 1).drop_last() == all.take(i as int));
        assert(all.take(i + 1).last() == (fields@[i as int].0@, fields@[i as int].1@));
        let name = fields[i].0.as_str();
        let there = find_value(endpoint, name).is_some();
        if is_mcp && same(name, "mcp_versions") && there {
            let mut error = location.to_string();
            error.append(": mcp.versions and mcp_versions cannot both be set");
            push_error(errors, error);
        } else if !there {
            set_entry(endpoint, name, fields[i].1.copy());
        }
        i += 1;
    }
    assert(all.take(i as int) == all);
}

fn located(location: &str, key: &str, rest: &str) -> (r: String)
    ensures
        r@ == location@ + "."@ + key@ + rest@,
{
    let mut r = location.to_string();
    r.append(".");
    r.append(key);
    r.append(rest);
    r
}

/// Replaces one stanza of an endpoint by what it lowers to.
pub fn normalize_l7_config_alias(
    endpoint: &mut Vec<(String, JsonValue)>,
    errors: &mut Vec<String>,
    location: &str,
    stanza: &ConfigStanza,
    outcome: &Outcome,
)
    ensures
        (Lowered {
            endpoint: json::entries(final(endpoint)@),
            errors: text::texts(final(errors)@),
        }) == stanza_lowered(
            Lowered {
                endpoint: json::entries(old(endpoint)@),
                errors: text::texts(old(errors)@),
            },
            location@,
            *stanza,
            lowering(*outcome),
        ),
{
    let key = stanza.key.as_str();
    let is_null = match find_value(endpoint, key) {
        None => {
            return ;
        },
        Some(JsonValue::Null) => true,
        Some(_) => false,
    };
    if is_null {
        let _removed = remove_entry(endpoint, key);
        if stanza.is_mcp {
            push_error(errors, located(location, key, ": mcp config must be an object"));
        }
        return ;
    }
    match outcome {
        Ok(fields) => {
            let _removed = remove_entry(endpoint, key);
            merge_fields(endpoint, errors, location, fields, stanza.is_mcp);
        },
        Err(detail) => {
            let mut error = located(location, key, ": ");
            error.append(detail.as_str());
            push_error(errors, error);
        },
    }
}

fn set_fields(object: &mut Vec<(String, JsonValue)>, fields: &Vec<(String, JsonValue)>)
    ensures
        json::entries(final(object)@) == with_fields(
            json::entries(old(object)@),
            json::entries(fields@),
        ),
{
    let ghost all = json::entries(fields@);
    let ghost start = json::entries(object@);
    let mut i: usize = 0;
    while i < fields.len()
        invariant
            i <= fields@.len(),
            all == json::entries(fields@),
            json::entries(object@) == with_fields(start, all.take(i as int)),
        decreases fields@.len() - i,
    {
        assert(all.take(i + 1).drop_last() == all.take(i as int));
        assert(all.take(i + 1).last() == (fields@[i as int].0@, fields@[i as int].1@));
        set_entry(object, fields[i].0.as_str(), fields[i].1.copy());
        i += 1;
    }
    assert(all.take(i as int) == all);
}

fn versions_missing(endpoint: &Vec<(String, JsonValue)>) -> (r: bool)
    ensures
        r == lacks_versions(json::entries(endpoint@)),
{
    let is_mcp = match find_value(endpoint, "protocol") {
        Some(JsonValue::Text(protocol)) => same_ignoring_case(protocol.as_str(), "mcp"),
        _ => false,
    };
    is_mcp && find_value(endpoint, "mcp_versions").is_none()
}

fn lower_endpoint(
    endpoint: &mut Vec<(String, JsonValue)>,
    errors: &mut Vec<String>,
    location: &str,
    stanzas: &Vec<ConfigStanza>,
    outcomes: &Vec<Outcome>,
    mcp_default: &Outcome,
)
    ensures
        (Lowered {
            endpoint: json::entries(final(endpoint)@),
            errors: text::texts(final(errors)@),
        }) == endpoint_lowered(
            json::entries(old(endpoint)@),
            text::texts(old(errors)@),
            location@,
            stanzas@,
            lowerings(outcomes@),
            lowering(*mcp_default),
        ),
{
    let ghost given = lowerings(outcomes@);
    prefer_mcp(endpoint);
    let ghost start = Lowered {
        endpoint: json::entries(endpoint@),
        errors: text::texts(errors@),
    };
    let missing: Outcome = Err("configuration was not lowered".to_string());
    let mut i: usize = 0;
    while i < stanzas.len()
        invariant
            i <= stanzas@.len(),
            given == lowerings(outcomes@),
            lowering(missing) == Err::<Entries, Seq<char>>("configuration was not lowered"@),
            (Lowered { endpoint: json::entries(endpoint@), errors: text::texts(errors@) })
                == stanzas_lowered(start, location@, stanzas@, given, i as int),
        decreases stanzas@.len() - i,
    {
        assert(given.len() == outcomes@.len());
        if i < outcomes.len() {
            assert(given[i as int] == lowering(outcomes@[i as int]));
            normalize_l7_config_alias(endpoint, errors, location, &stanzas[i], &outcomes[i]);
        } else {
            normalize_l7_config_alias(endpoint, errors, location, &stanzas[i], &missing);
        }
        i += 1;
    }
    if versions_missing(endpoint) {
        match mcp_default {
            Ok(fields) => set_fields(endpoint, fields),
            Err(detail) => {
                let mut error = location.to_string();
                error.append(".mcp: ");
                error.append(detail.as_str());
                push_error(errors, error);
            },
        }
    }
}

fn endpoint_location(policy: &str, index: usize) -> (r: String)
    ensures
        r@ == location_of(policy@, index as int),
{
    let mut r = "network_policies.".to_string();
    r.append(policy);
    r.append(".endpoints[");
    r.append(numeral_of(index as u64, Base::Decimal).as_str());
    r.append("]");
    r
}

fn lower_endpoints(
    items: &Vec<JsonValue>,
    errors: &mut Vec<String>,
    policy: &str,
    stanzas: &Vec<ConfigStanza>,
    outcomes: &Vec<Vec<Outcome>>,
    mcp_default: &Outcome,
) -> (r: Vec<JsonValue>)
    ensures
        (LoweredList { items: json::values(r@), errors: text::texts(final(errors)@) })
            == endpoints_lowered(
            json::values(items@),
            text::texts(old(errors)@),
            policy@,
            stanzas@,
            policy_lowerings(outcomes@),
            lowering(*mcp_default),
        ),
{
    let ghost all = json::values(items@);
    let ghost given = policy_lowerings(outcomes@);
    let ghost start = text::texts(errors@);
    let none: Vec<Outcome> = Vec::new();
    assert(lowerings(none@) == Seq::<Lowering>::empty());
    let mut r: Vec<JsonValue> = Vec::new();
    assert(json::values(r@) == Seq::<Json>::empty());
    let mut i: usize = 0;
    while i < items.len()
        invariant
            i <= items@.len(),
            all == json::values(items@),
            given == policy_lowerings(outcomes@),
            lowerings(none@) == Seq::<Lowering>::empty(),
            (LoweredList { items: json::values(r@), errors: text::texts(errors@) })
                == endpoints_lowered(
                all.take(i as int),
                start,
                policy@,
                stanzas@,
                given,
                lowering(*mcp_default),
            ),
        decreases items@.len() - i,
    {
        assert(all.take(i + 1).drop_last() == all.take(i as int));
        assert(all.take(i + 1).last() == items@[i as int]@);
        assert(given.len() == outcomes@.len());
        let ghost before = json::values(r@);
        let item = match &items[i] {
            JsonValue::Object(list) => {
                let mut endpoint = copy_entries(list);
                let location = endpoint_location(policy, i);
                if i < outcomes.len() {
                    assert(given[i as int] == lowerings(outcomes@[i as int]@));
                    lower_endpoint(
                        &mut endpoint,
                        errors,
                        location.as_str(),
                        stanzas,
                        &outcomes[i],
                        mcp_default,
                    );
                } else {
                    lower_endpoint(
                        &mut endpoint,
                        errors,
                        location.as_str(),
                        stanzas,
                        &none,
                        mcp_default,
                    );
                }
                JsonValue::Object(endpoint)
            },
            other => other.copy(),
        };
        let ghost model = item@;
        r.push(item);
        assert(json::values(r@) == before.push(model));
        i += 1;
    }
    assert(all.take(i as int) == all);
    r
}

fn lower_policy(
    policy: &JsonValue,
    errors: &mut Vec<String>,
    name: &str,
    stanzas: &Vec<ConfigStanza>,
    outcomes: &Vec<Vec<Outcome>>,
    mcp_default: &Outcome,
) -> (r: JsonValue)
    ensures
        (r@, text::texts(final(errors)@)) == policy_lowered(
            policy@,
            text::texts(old(errors)@),
            name@,
            stanzas@,
            policy_lowerings(outcomes@),
            lowering(*mcp_default),
        ),
{
    let lowered = match policy.get("endpoints") {
        Some(JsonValue::Array(items)) => lower_endpoints(
            items,
            errors,
            name,
            stanzas,
            outcomes,
            mcp_default,
        ),
        _ => {
            return policy.copy();
        },
    };
    match policy {
        JsonValue::Object(list) => {
            let mut object = copy_entries(list);
            set_entry(&mut object, "endpoints", JsonValue::Array(lowered));
            JsonValue::Object(object)
        },
        other => other.copy(),
    }
}

fn lower_policies(
    policies: &Vec<(String, JsonValue)>,
    errors: &mut Vec<String>,
    stanzas: &Vec<ConfigStanza>,
    table: &Vec<Vec<Vec<Outcome>>>,
    mcp_default: &Outcome,
) -> (r: Vec<(String, JsonValue)>)
    requires
        old(errors)@.len() == 0,
    ensures
        (json::entries(r@), text::texts(final(errors)@)) == policies_lowered(
            json::entries(policies@),
            stanzas@,
            lowering_table(table@),
            lowering(*mcp_default),
        ),
{
    let ghost all = json::entries(policies@);
    let ghost given = lowering_table(table@);
    let none: Vec<Vec<Outcome>> = Vec::new();
    assert(policy_lowerings(none@) == Seq::<Seq<Lowering>>::empty());
    let mut r: Vec<(String, JsonValue)> = Vec::new();
    assert(json::entries(r@) == Seq::<(Seq<char>, Json)>::empty());
    assert(text::texts(errors@) == Seq::<Seq<char>>::empty());
    let mut i: usize = 0;
    while i < policies.len()
        invariant
            i <= policies@.len(),
            all == json::entries(policies@),
            given == lowering_table(table@),
            policy_lowerings(none@) == Seq::<Seq<Lowering>>::empty(),
            (json::entries(r@), text::texts(errors@)) == policies_lowered(
                all.take(i as int),
                stanzas@,
                given,
                lowering(*mcp_default),
            ),
        decreases policies@.len() - i,
    {
        assert(all.take(i + 1).drop_last() == all.take(i as int));
        assert(all.take(i + 1).last() == (policies@[i as int].0@, policies@[i as int].1@));
        assert(given.len() == table@.len());
        let ghost before = json::entries(r@);
        let name = policies[i].0.as_str();
        let policy = if i < table.len() {
            assert(given[i as int] == policy_lowerings(table@[i as int]@));
            lower_policy(&policies[i].1, errors, name, stanzas, &table[i], mcp_default)
        } else {
            lower_policy(&policies[i].1, errors, name, stanzas, &none, mcp_default)
        };
        let pair = (policies[i].0.clone(), policy);
        let ghost model = (pair.0@, pair.1@);
        r.push(pair);
        assert(json::entries(r@) == before.push(model));
        i += 1;
    }
    assert(all.take(i as int) == all);
    r
}

/// Replaces the configuration stanzas of all endpoints by what they lower to,
/// and returns the faults. The outcomes of lowering are given by policy,
/// endpoint and stanza, in the order of the data; `mcp_default` is what an
/// empty MCP stanza lowers to.
pub fn normalize_l7_config_aliases(
    data: &mut JsonValue,
    stanzas: &Vec<ConfigStanza>,
    table: &Vec<Vec<Vec<Outcome>>>,
    mcp_default: &Outcome,
) -> (errors: Vec<String>)
    ensures
        (final(data)@, text::texts(errors@)) == data_lowered(
            old(data)@,
            stanzas@,
            lowering_table(table@),
            lowering(*mcp_default),
        ),
{
    let mut errors: Vec<String> = Vec::new();
    assert(text::texts(errors@) == Seq::<Seq<char>>::empty());
    let lowered = match data.get("network_policies") {
        Some(JsonValue::Object(policies)) => lower_policies(
            policies,
            &mut errors,
            stanzas,
            table,
            mcp_default,
        ),
        _ => {
            return errors;
        },
    };
    if let JsonValue::Object(list) = &*data {
        let mut object = copy_entries(list);
        set_entry(&mut object, "network_policies", JsonValue::Object(lowered));
        *data = JsonValue::Object(object);
    }
    errors
}

fn endpoint_configs(
    endpoint: &Vec<(String, JsonValue)>,
    stanzas: &Vec<ConfigStanza>,
) -> (r: Vec<Option<JsonValue>>)
    ensures
        config_models(r@) == configs(json::entries(endpoint@), stanzas@),
{
    let mut preferred_endpoint = copy_entries(endpoint);
    prefer_mcp(&mut preferred_endpoint);
    let ghost all = configs(json::entries(endpoint@), stanzas@);
    let mut r: Vec<Option<JsonValue>> = Vec::new();
    let mut i: usize = 0;
    while i < stanzas.len()
        invariant
            i <= stanzas@.len(),
            json::entries(preferred_endpoint@) == preferred(json::entries(endpoint@)),
            all == configs(json::entries(endpoint@), stanzas@),
            config_models(r@) == all.take(i as int),
        decreases stanzas@.len() - i,
    {
        let config = match find_value(&preferred_endpoint, stanzas[i].key.as_str()) {
            None => None,
            Some(JsonValue::Null) => None,
            Some(value) => Some(value.copy()),
        };
        let ghost before = config_models(r@);
        let ghost model = config_model(config);
        r.push(config);
        assert(config_models(r@) == before.push(model));
        assert(all[i as int] == model);
        assert(all.take(i + 1) == before.push(model));
        i += 1;
    }
    assert(all.take(i as int) == all);
    r
}

fn endpoints_configs(
    policy: &JsonValue,
    stanzas: &Vec<ConfigStanza>,
) -> (r: Vec<Vec<Option<JsonValue>>>)
    ensures
        policy_config_models(r@) == policy_configs(policy@, stanzas@),
{
    let mut r: Vec<Vec<Option<JsonValue>>> = Vec::new();
    let ghost all = policy_configs(policy@, stanzas@);
    if let Some(JsonValue::Array(items)) = policy.get("endpoints") {
        let mut i: usize = 0;
        while i < items.len()
            invariant
                i <= items@.len(),
                policy@.array_field("endpoints"@) == Some(json::values(items@)),
                all == policy_configs(policy@, stanzas@),
                policy_config_models(r@) == all.take(i as int),
            decreases items@.len() - i,
        {
            let found: Vec<Option<JsonValue>> = match &items[i] {
                JsonValue::Object(endpoint) => endpoint_configs(endpoint, stanzas),
                _ => Vec::new(),
            };
            let ghost before = policy_config_models(r@);
            let ghost model = config_models(found@);
            r.push(found);
            assert(policy_config_models(r@) == before.push(model));
            assert(json::values(items@)[i as int] == items@[i as int]@);
            assert(all[i as int] == model);
            assert(all.take(i + 1) == before.push(model));
            i += 1;
        }
        assert(all.take(i as int) == all);
    }
    assert(policy_config_models(r@) == all);
    r
}

/// Lists the stanza configurations of policy data that are to be lowered, by
/// policy, endpoint and stanza.
pub fn l7_config_requests(
    data: &JsonValue,
    stanzas: &Vec<ConfigStanza>,
) -> (r: Vec<Vec<Vec<Option<JsonValue>>>>)
    ensures
        config_table(r@) == data_configs(data@, stanzas@),
{
    let mut r: Vec<Vec<Vec<Option<JsonValue>>>> = Vec::new();
    let ghost all = data_configs(data@, stanzas@);
    if let Some(JsonValue::Object(policies)) = data.get("network_policies") {
        let mut i: usize = 0;
        while i < policies.len()
            invariant
                i <= policies@.len(),
                data@.field("network_policies"@) == Some(Json::Object(json::entries(policies@))),
                all == data_configs(data@, stanzas@),
                config_table(r@) == all.take(i as int),
            decreases policies@.len() - i,
        {
            let found = endpoints_configs(&policies[i].1, stanzas);
            let ghost before = config_table(r@);
            let ghost model = policy_config_models(found@);
            r.push(found);
            assert(config_table(r@) == before.push(model));
            assert(json::entries(policies@)[i as int].1 == policies@[i as int].1@);
            assert(all[i as int] == model);
            assert(all.take(i + 1) == before.push(model));
            i += 1;
        }
        assert(all.take(i as int) == all);
    }
    assert(config_table(r@) == all);
    r
}

} // verus!
