//! What holds of every endpoint whose nested configuration was lowered.

use crate::json;
use crate::json::Json;
use crate::opa::aliases;
use crate::opa::aliases::{ConfigStanza, Lowered, Lowering};
use crate::opa::builder::Entries;
use vstd::prelude::*;

verus! {

proof fn lemma_removed(object: Entries, key: Seq<char>)
    requires
        json::distinct_keys(object),
    ensures
        json::lookup(json::without_entry(object, key), key) is None,
{
    json::lemma_position(object, key);
    let at = json::position(object, key);
    let gone = json::without_entry(object, key);
    json::lemma_position(gone, key);
    let still = json::position(gone, key);
    if still < gone.len() && at < object.len() {
        let j = if still < at {
            still
        } else {
            still + 1
        };
        assert(object[j] == gone[still]);
        if j < at {
            assert(object[j].0 != object[at].0);
        } else {
            assert(object[at].0 != object[j].0);
        }
    }
}

/// The MCP stanza takes precedence: beside it a JSON-RPC stanza is dropped, and
/// nothing else is.
pub proof fn mcp_stanza_takes_precedence(endpoint: Entries, key: Seq<char>)
    requires
        json::distinct_keys(endpoint),
    ensures
        json::lookup(aliases::preferred(endpoint), key) == if key == "json_rpc"@ && json::lookup(
            endpoint,
            "mcp"@,
        ) is Some {
            None
        } else {
            json::lookup(endpoint, key)
        },
{
    lemma_removed(endpoint, "json_rpc"@);
    if key != "json_rpc"@ {
        json::lookup_after_remove(endpoint, "json_rpc"@, key);
    }
}

proof fn lemma_merged(start: Lowered, location: Seq<char>, fields: Entries, is_mcp: bool, key: Seq<char>)
    requires
        json::distinct_keys(fields),
    ensures
        json::lookup(aliases::merged(start, location, fields, is_mcp).endpoint, key)
            == match json::lookup(start.endpoint, key) {
            Some(value) => Some(value),
            None => json::lookup(fields, key),
        },
    decreases fields.len(),
{
    json::lemma_position(fields, key);
    if fields.len() > 0 {
        let front = fields.drop_last();
        assert forall|i: int, j: int| 0 <= i < j < front.len() implies (#[trigger] front[i]).0 != (
        #[trigger] front[j]).0 by {
            assert(front[i] == fields[i] && front[j] == fields[j]);
        }
        let name = fields.last().0;
        lemma_merged(start, location, front, is_mcp, key);
        lemma_merged(start, location, front, is_mcp, name);
        let before = aliases::merged(start, location, front, is_mcp);
        json::lookup_after_set(before.endpoint, name, fields.last().1, key);
        json::lemma_position(front, key);
        json::lemma_position(front, name);
        let at = json::position(front, key);
        if json::position(front, name) < front.len() {
            assert(front[json::position(front, name)] == fields[json::position(front, name)]);
            assert(fields[json::position(front, name)].0 != fields[fields.len() - 1].0);
        }
        if at < front.len() {
            assert(front[at] == fields[at]);
            assert forall|i: int| 0 <= i < at implies (#[trigger] fields[i]).0 != key by {
                assert(fields[i] == front[i]);
            }
            json::lemma_position_is(fields, key, at);
        } else {
            assert forall|i: int| 0 <= i < front.len() implies (#[trigger] fields[i]).0 != key by {
                assert(fields[i] == front[i]);
            }
            if name == key {
                json::lemma_position_is(fields, key, fields.len() - 1);
            } else {
                json::lemma_position_is(fields, key, fields.len() as int);
            }
        }
    }
}

/// A stanza that is lowered gives way to its runtime fields: a field that the
/// endpoint has under its own name keeps its value, every other lowered field is
/// put in, and nothing else changes.
pub proof fn stanza_gives_way_to_its_fields(
    before: Lowered,
    location: Seq<char>,
    stanza: ConfigStanza,
    fields: Entries,
    key: Seq<char>,
)
    requires
        json::distinct_keys(before.endpoint),
        json::distinct_keys(fields),
        json::lookup(before.endpoint, stanza.key@) matches Some(config) && !(config is Null),
    ensures
        ({
            let after = aliases::stanza_lowered(before, location, stanza, Ok(fields)).endpoint;
            &&& key != stanza.key@ ==> json::lookup(after, key) == match json::lookup(
                before.endpoint,
                key,
            ) {
                Some(value) => Some(value),
                None => json::lookup(fields, key),
            }
            &&& json::lookup(after, stanza.key@) == json::lookup(fields, stanza.key@)
        }),
{
    let bare = json::without_entry(before.endpoint, stanza.key@);
    let start = Lowered { endpoint: bare, ..before };
    lemma_removed(before.endpoint, stanza.key@);
    lemma_merged(start, location, fields, stanza.is_mcp, key);
    lemma_merged(start, location, fields, stanza.is_mcp, stanza.key@);
    if key != stanza.key@ {
        json::lookup_after_remove(before.endpoint, stanza.key@, key);
    }
}

proof fn lemma_merged_errors(start: Lowered, location: Seq<char>, fields: Entries, is_mcp: bool)
    requires
        json::distinct_keys(fields),
    ensures
        ({
            let after = aliases::merged(start, location, fields, is_mcp);
            let twice = is_mcp && json::lookup(fields, "mcp_versions"@) is Some && json::lookup(
                start.endpoint,
                "mcp_versions"@,
            ) is Some;
            &&& !twice ==> after.errors == start.errors
            &&& twice ==> after.errors.len() == start.errors.len() + 1 && after.errors.drop_last()
                == start.errors
        }),
    decreases fields.len(),
{
    json::lemma_position(fields, "mcp_versions"@);
    if fields.len() > 0 {
        let front = fields.drop_last();
        assert forall|i: int, j: int| 0 <= i < j < front.len() implies (#[trigger] front[i]).0 != (
        #[trigger] front[j]).0 by {
            assert(front[i] == fields[i] && front[j] == fields[j]);
        }
        let key = "mcp_versions"@;
        lemma_merged_errors(start, location, front, is_mcp);
        lemma_merged(start, location, front, is_mcp, key);
        json::lemma_position(front, key);
        let at = json::position(front, key);
        if at < front.len() {
            assert(front[at] == fields[at]);
            assert forall|i: int| 0 <= i < at implies (#[trigger] fields[i]).0 != key by {
                assert(fields[i] == front[i]);
            }
            json::lemma_position_is(fields, key, at);
            assert(fields[at].0 != fields[fields.len() - 1].0);
        } else {
            assert forall|i: int| 0 <= i < front.len() implies (#[trigger] fields[i]).0 != key by {
                assert(fields[i] == front[i]);
            }
            if fields.last().0 == key {
                json::lemma_position_is(fields, key, fields.len() - 1);
                let before = aliases::merged(start, location, front, is_mcp);
                assert(aliases::merged(start, location, fields, is_mcp).errors =~= if is_mcp
                    && json::lookup(before.endpoint, key) is Some {
                    before.errors.push(
                        location + ": mcp.versions and mcp_versions cannot both be set"@,
                    )
                } else {
                    before.errors
                });
                assert(aliases::merged(start, location, fields, is_mcp).errors.len()
                    > start.errors.len() ==> aliases::merged(
                    start,
                    location,
                    fields,
                    is_mcp,
                ).errors.drop_last() =~= start.errors);
            } else {
                json::lemma_position_is(fields, key, fields.len() as int);
            }
        }
    }
}

/// Lowering is at fault in one case alone: MCP versions stand both in the stanza
/// and in the endpoint. That adds one fault to those that there are.
pub proof fn versions_may_not_stand_twice(
    before: Lowered,
    location: Seq<char>,
    stanza: ConfigStanza,
    fields: Entries,
)
    requires
        stanza.key@ != "mcp_versions"@,
        json::distinct_keys(fields),
        json::lookup(before.endpoint, stanza.key@) matches Some(config) && !(config is Null),
    ensures
        ({
            let errors = aliases::stanza_lowered(before, location, stanza, Ok(fields)).errors;
            let twice = stanza.is_mcp && json::lookup(fields, "mcp_versions"@) is Some
                && json::lookup(before.endpoint, "mcp_versions"@) is Some;
            &&& errors.len() == before.errors.len() + if twice {
                1int
            } else {
                0
            }
            &&& errors.take(before.errors.len() as int) == before.errors
        }),
{
    let start = Lowered { endpoint: json::without_entry(before.endpoint, stanza.key@), ..before };
    json::lookup_after_remove(before.endpoint, stanza.key@, "mcp_versions"@);
    lemma_merged_errors(start, location, fields, stanza.is_mcp);
    let errors = aliases::stanza_lowered(before, location, stanza, Ok(fields)).errors;
    assert(errors.take(before.errors.len() as int) =~= before.errors);
}

/// A stanza that cannot be lowered adds one fault, which names its place and why,
/// and changes nothing in the endpoint.
pub proof fn failed_stanza_is_a_fault(
    before: Lowered,
    location: Seq<char>,
    stanza: ConfigStanza,
    detail: Seq<char>,
)
    requires
        json::lookup(before.endpoint, stanza.key@) matches Some(config) && !(config is Null),
    ensures
        ({
            let after = aliases::stanza_lowered(before, location, stanza, Err(detail));
            &&& after.endpoint == before.endpoint
            &&& after.errors.len() == before.errors.len() + 1
            &&& after.errors.drop_last() == before.errors
            &&& location.is_prefix_of(after.errors.last())
            &&& detail.is_suffix_of(after.errors.last())
        }),
{
    let after = aliases::stanza_lowered(before, location, stanza, Err(detail));
    let last = location + "."@ + stanza.key@ + ": "@ + detail;
    assert(after.errors.last() == last);
    assert(after.errors.drop_last() =~= before.errors);
    assert(location =~= last.subrange(0, location.len() as int));
    assert(detail =~= last.subrange(last.len() - detail.len(), last.len() as int));
}

/// A stanza that is null is dropped, which is a fault of the MCP stanza alone. A
/// stanza that is not there changes nothing.
pub proof fn null_stanza_is_dropped(
    before: Lowered,
    location: Seq<char>,
    stanza: ConfigStanza,
    outcome: Lowering,
)
    requires
        json::distinct_keys(before.endpoint),
    ensures
        ({
            let after = aliases::stanza_lowered(before, location, stanza, outcome);
            &&& json::lookup(before.endpoint, stanza.key@) is None ==> after == before
            &&& json::lookup(before.endpoint, stanza.key@) == Some(Json::Null) ==> {
                &&& json::lookup(after.endpoint, stanza.key@) is None
                &&& !stanza.is_mcp ==> after.errors == before.errors
                &&& stanza.is_mcp ==> after.errors.len() == before.errors.len() + 1
                    && after.errors.drop_last() == before.errors
            }
        }),
{
    lemma_removed(before.endpoint, stanza.key@);
    let after = aliases::stanza_lowered(before, location, stanza, outcome);
    if json::lookup(before.endpoint, stanza.key@) == Some(Json::Null) && stanza.is_mcp {
        assert(after.errors.drop_last() =~= before.errors);
    }
}

proof fn lemma_merged_endpoint(
    a: Lowered,
    b: Lowered,
    location: Seq<char>,
    other: Seq<char>,
    fields: Entries,
    is_mcp: bool,
)
    requires
        a.endpoint == b.endpoint,
    ensures
        aliases::merged(a, location, fields, is_mcp).endpoint == aliases::merged(
            b,
            other,
            fields,
            is_mcp,
        ).endpoint,
    decreases fields.len(),
{
    if fields.len() > 0 {
        lemma_merged_endpoint(a, b, location, other, fields.drop_last(), is_mcp);
    }
}

proof fn lemma_stanzas_endpoint(
    a: Lowered,
    b: Lowered,
    location: Seq<char>,
    other: Seq<char>,
    stanzas: Seq<ConfigStanza>,
    outcomes: Seq<Lowering>,
    n: int,
)
    requires
        a.endpoint == b.endpoint,
    ensures
        aliases::stanzas_lowered(a, location, stanzas, outcomes, n).endpoint
            == aliases::stanzas_lowered(b, other, stanzas, outcomes, n).endpoint,
    decreases n,
{
    if 0 < n <= stanzas.len() {
        lemma_stanzas_endpoint(a, b, location, other, stanzas, outcomes, n - 1);
        let x = aliases::stanzas_lowered(a, location, stanzas, outcomes, n - 1);
        let y = aliases::stanzas_lowered(b, other, stanzas, outcomes, n - 1);
        let stanza = stanzas[n - 1];
        if let Ok(fields) = aliases::outcome_at(outcomes, n - 1) {
            lemma_merged_endpoint(
                Lowered { endpoint: json::without_entry(x.endpoint, stanza.key@), ..x },
                Lowered { endpoint: json::without_entry(y.endpoint, stanza.key@), ..y },
                location,
                other,
                fields,
                stanza.is_mcp,
            );
        }
    }
}

/// What an endpoint is lowered to depends on its own stanzas alone: not on where
/// it stands, nor on the faults of others.
pub proof fn endpoint_is_lowered_by_itself(
    endpoint: Entries,
    a: Seq<Seq<char>>,
    b: Seq<Seq<char>>,
    location: Seq<char>,
    other: Seq<char>,
    stanzas: Seq<ConfigStanza>,
    outcomes: Seq<Lowering>,
    mcp_default: Lowering,
)
    ensures
        aliases::endpoint_lowered(
            endpoint,
            a,
            location,
            stanzas,
            outcomes,
            mcp_default,
        ).endpoint == aliases::endpoint_lowered(
            endpoint,
            b,
            other,
            stanzas,
            outcomes,
            mcp_default,
        ).endpoint,
{
    lemma_stanzas_endpoint(
        Lowered { endpoint: aliases::preferred(endpoint), errors: a },
        Lowered { endpoint: aliases::preferred(endpoint), errors: b },
        location,
        other,
        stanzas,
        outcomes,
        stanzas.len() as int,
    );
}

/// Every endpoint of a policy is lowered by its own outcomes, and stays in its
/// place. What is no object stays as it is.
pub proof fn endpoints_are_lowered_in_place(
    items: Seq<Json>,
    errors: Seq<Seq<char>>,
    policy: Seq<char>,
    stanzas: Seq<ConfigStanza>,
    outcomes: Seq<Seq<Lowering>>,
    mcp_default: Lowering,
    i: int,
    none: Seq<Seq<char>>,
    nowhere: Seq<char>,
)
    requires
        0 <= i < items.len(),
        outcomes.len() == items.len(),
    ensures
        ({
            let after = aliases::endpoints_lowered(
                items,
                errors,
                policy,
                stanzas,
                outcomes,
                mcp_default,
            );
            &&& after.items.len() == items.len()
            &&& after.items[i] == match items[i] {
                Json::Object(endpoint) => Json::Object(
                    aliases::endpoint_lowered(
                        endpoint,
                        none,
                        nowhere,
                        stanzas,
                        outcomes[i],
                        mcp_default,
                    ).endpoint,
                ),
                other => other,
            }
        }),
{
    lemma_endpoints_in_place(
        items,
        errors,
        policy,
        stanzas,
        outcomes,
        mcp_default,
        i,
        none,
        nowhere,
    );
}

proof fn lemma_endpoints_in_place(
    items: Seq<Json>,
    errors: Seq<Seq<char>>,
    policy: Seq<char>,
    stanzas: Seq<ConfigStanza>,
    outcomes: Seq<Seq<Lowering>>,
    mcp_default: Lowering,
    i: int,
    none: Seq<Seq<char>>,
    nowhere: Seq<char>,
)
    requires
        items.len() <= outcomes.len(),
    ensures
        ({
            let after = aliases::endpoints_lowered(
                items,
                errors,
                policy,
                stanzas,
                outcomes,
                mcp_default,
            );
            &&& after.items.len() == items.len()
            &&& 0 <= i < items.len() ==> after.items[i] == match items[i] {
                Json::Object(endpoint) => Json::Object(
                    aliases::endpoint_lowered(
                        endpoint,
                        none,
                        nowhere,
                        stanzas,
                        outcomes[i],
                        mcp_default,
                    ).endpoint,
                ),
                other => other,
            }
        }),
    decreases items.len(),
{
    if items.len() > 0 {
        let front = items.drop_last();
        lemma_endpoints_in_place(
            front,
            errors,
            policy,
            stanzas,
            outcomes,
            mcp_default,
            i,
            none,
            nowhere,
        );
        let before = aliases::endpoints_lowered(
            front,
            errors,
            policy,
            stanzas,
            outcomes,
            mcp_default,
        );
        if let Json::Object(endpoint) = items.last() {
            endpoint_is_lowered_by_itself(
                endpoint,
                before.errors,
                none,
                aliases::location_of(policy, items.len() - 1),
                nowhere,
                stanzas,
                outcomes[items.len() - 1],
                mcp_default,
            );
        }
        if 0 <= i < front.len() {
            assert(front[i] == items[i]);
        }
    }
}

/// Every network policy keeps its name and place when the stanzas of its
/// endpoints are lowered, and what is no policy with endpoints stays as it is.
pub proof fn policies_are_lowered_in_place(
    policies: Entries,
    stanzas: Seq<ConfigStanza>,
    table: Seq<Seq<Seq<Lowering>>>,
    mcp_default: Lowering,
    i: int,
)
    ensures
        ({
            let after = aliases::policies_lowered(policies, stanzas, table, mcp_default).0;
            &&& after.len() == policies.len()
            &&& 0 <= i < policies.len() ==> after[i].0 == policies[i].0
            &&& 0 <= i < policies.len() && policies[i].1.array_field("endpoints"@) is None
                ==> after[i].1 == policies[i].1
            &&& 0 <= i < policies.len() ==> forall|key: Seq<char>|
                key != "endpoints"@ ==> #[trigger] after[i].1.field(key) == policies[i].1.field(key)
        }),
    decreases policies.len(),
{
    if policies.len() > 0 {
        let front = policies.drop_last();
        policies_are_lowered_in_place(front, stanzas, table, mcp_default, i);
        let after = aliases::policies_lowered(policies, stanzas, table, mcp_default).0;
        if 0 <= i < front.len() {
            assert(front[i] == policies[i]);
            assert(after[i] == aliases::policies_lowered(front, stanzas, table, mcp_default).0[i]);
        } else if i == front.len() {
            assert forall|key: Seq<char>| key != "endpoints"@ implies #[trigger] after[i].1.field(
                key,
            ) == policies[i].1.field(key) by {
                if let Some(items) = policies[i].1.array_field("endpoints"@) {
                    let errors = aliases::policies_lowered(front, stanzas, table, mcp_default).1;
                    let lowered = aliases::endpoints_lowered(
                        items,
                        errors,
                        policies[i].0,
                        stanzas,
                        aliases::policy_outcomes(table, i),
                        mcp_default,
                    ).items;
                    json::lookup_after_set(
                        policies[i].1->Object_0,
                        "endpoints"@,
                        Json::Array(lowered),
                        key,
                    );
                }
            }
        }
    }
}

/// Every endpoint of every policy in the data is lowered by the outcomes for that
/// policy and endpoint, in place; the rest of the data stays.
pub proof fn data_is_lowered_in_place(
    data: Entries,
    policies: Entries,
    stanzas: Seq<ConfigStanza>,
    table: Seq<Seq<Seq<Lowering>>>,
    mcp_default: Lowering,
    i: int,
    items: Seq<Json>,
    j: int,
    endpoint: Entries,
    none: Seq<Seq<char>>,
    nowhere: Seq<char>,
    key: Seq<char>,
)
    requires
        json::lookup(data, "network_policies"@) == Some(Json::Object(policies)),
        0 <= i < policies.len() <= table.len(),
        policies[i].1.array_field("endpoints"@) == Some(items),
        0 <= j < items.len() == table[i].len(),
        items[j] == Json::Object(endpoint),
    ensures
        ({
            let after = aliases::data_lowered(Json::Object(data), stanzas, table, mcp_default).0;
            &&& key != "network_policies"@ ==> after.field(key) == Json::Object(data).field(key)
            &&& after.field("network_policies"@) matches Some(Json::Object(list)) && {
                &&& list.len() == policies.len()
                &&& list[i].0 == policies[i].0
                &&& list[i].1.array_field("endpoints"@) matches Some(lowered) && {
                    &&& lowered.len() == items.len()
                    &&& lowered[j] == Json::Object(
                        aliases::endpoint_lowered(
                            endpoint,
                            none,
                            nowhere,
                            stanzas,
                            table[i][j],
                            mcp_default,
                        ).endpoint,
                    )
                }
            }
        }),
{
    let list = aliases::policies_lowered(policies, stanzas, table, mcp_default).0;
    json::lookup_after_set(data, "network_policies"@, Json::Object(list), "network_policies"@);
    json::lookup_after_set(data, "network_policies"@, Json::Object(list), key);
    lemma_policy_in_place(policies, stanzas, table, mcp_default, i, items, j, none, nowhere);
}

proof fn lemma_policy_in_place(
    policies: Entries,
    stanzas: Seq<ConfigStanza>,
    table: Seq<Seq<Seq<Lowering>>>,
    mcp_default: Lowering,
    i: int,
    items: Seq<Json>,
    j: int,
    none: Seq<Seq<char>>,
    nowhere: Seq<char>,
)
    requires
        0 <= i < policies.len() <= table.len(),
        policies[i].1.array_field("endpoints"@) == Some(items),
        0 <= j < items.len() == table[i].len(),
        items[j] is Object,
    ensures
        ({
            let list = aliases::policies_lowered(policies, stanzas, table, mcp_default).0;
            &&& list.len() == policies.len()
            &&& list[i].0 == policies[i].0
            &&& list[i].1.array_field("endpoints"@) matches Some(lowered) && {
                &&& lowered.len() == items.len()
                &&& lowered[j] == Json::Object(
                    aliases::endpoint_lowered(
                        items[j]->Object_0,
                        none,
                        nowhere,
                        stanzas,
                        table[i][j],
                        mcp_default,
                    ).endpoint,
                )
            }
        }),
    decreases policies.len(),
{
    policies_are_lowered_in_place(policies, stanzas, table, mcp_default, i);
    let front = policies.drop_last();
    let list = aliases::policies_lowered(policies, stanzas, table, mcp_default).0;
    policies_are_lowered_in_place(front, stanzas, table, mcp_default, i);
    if i < front.len() {
        assert(front[i] == policies[i]);
        lemma_policy_in_place(front, stanzas, table, mcp_default, i, items, j, none, nowhere);
        assert(list[i] == aliases::policies_lowered(front, stanzas, table, mcp_default).0[i]);
    } else {
        let errors = aliases::policies_lowered(front, stanzas, table, mcp_default).1;
        let lowered = aliases::endpoints_lowered(
            items,
            errors,
            policies[i].0,
            stanzas,
            table[i],
            mcp_default,
        ).items;
        endpoints_are_lowered_in_place(
            items,
            errors,
            policies[i].0,
            stanzas,
            table[i],
            mcp_default,
            j,
            none,
            nowhere,
        );
        json::lookup_after_set(
            policies[i].1->Object_0,
            "endpoints"@,
            Json::Array(lowered),
            "endpoints"@,
        );
    }
}

/// Whether faults were added to others, which stay in front.
pub open spec fn grew(before: Seq<Seq<char>>, after: Seq<Seq<char>>) -> bool {
    before.len() <= after.len() && forall|k: int|
        0 <= k < before.len() ==> #[trigger] after[k] == before[k]
}

proof fn lemma_merged_grows(start: Lowered, location: Seq<char>, fields: Entries, is_mcp: bool)
    ensures
        grew(start.errors, aliases::merged(start, location, fields, is_mcp).errors),
    decreases fields.len(),
{
    if fields.len() > 0 {
        lemma_merged_grows(start, location, fields.drop_last(), is_mcp);
    }
}

proof fn lemma_stanzas_grow(
    start: Lowered,
    location: Seq<char>,
    stanzas: Seq<ConfigStanza>,
    outcomes: Seq<Lowering>,
    n: int,
)
    ensures
        grew(
            start.errors,
            aliases::stanzas_lowered(start, location, stanzas, outcomes, n).errors,
        ),
    decreases n,
{
    if 0 < n <= stanzas.len() {
        lemma_stanzas_grow(start, location, stanzas, outcomes, n - 1);
        let before = aliases::stanzas_lowered(start, location, stanzas, outcomes, n - 1);
        if let Ok(fields) = aliases::outcome_at(outcomes, n - 1) {
            lemma_merged_grows(
                Lowered {
                    endpoint: json::without_entry(before.endpoint, stanzas[n - 1].key@),
                    ..before
                },
                location,
                fields,
                stanzas[n - 1].is_mcp,
            );
        }
    }
}

/// The faults of one endpoint are added to those of the endpoints before it.
pub proof fn faults_of_endpoints_add_up(
    items: Seq<Json>,
    errors: Seq<Seq<char>>,
    policy: Seq<char>,
    stanzas: Seq<ConfigStanza>,
    outcomes: Seq<Seq<Lowering>>,
    mcp_default: Lowering,
)
    ensures
        grew(
            errors,
            aliases::endpoints_lowered(
                items,
                errors,
                policy,
                stanzas,
                outcomes,
                mcp_default,
            ).errors,
        ),
        items.len() > 0 ==> grew(
            aliases::endpoints_lowered(
                items.drop_last(),
                errors,
                policy,
                stanzas,
                outcomes,
                mcp_default,
            ).errors,
            aliases::endpoints_lowered(
                items,
                errors,
                policy,
                stanzas,
                outcomes,
                mcp_default,
            ).errors,
        ),
    decreases items.len(),
{
    if items.len() > 0 {
        let front = items.drop_last();
        faults_of_endpoints_add_up(front, errors, policy, stanzas, outcomes, mcp_default);
        let before = aliases::endpoints_lowered(
            front,
            errors,
            policy,
            stanzas,
            outcomes,
            mcp_default,
        );
        if let Json::Object(endpoint) = items.last() {
            lemma_stanzas_grow(
                Lowered { endpoint: aliases::preferred(endpoint), errors: before.errors },
                aliases::location_of(policy, items.len() - 1),
                stanzas,
                aliases::outcomes_at(outcomes, items.len() - 1),
                stanzas.len() as int,
            );
        }
    }
}

/// The faults of one policy are added to those of the policies before it.
pub proof fn faults_of_policies_add_up(
    policies: Entries,
    stanzas: Seq<ConfigStanza>,
    table: Seq<Seq<Seq<Lowering>>>,
    mcp_default: Lowering,
)
    requires
        policies.len() > 0,
    ensures
        grew(
            aliases::policies_lowered(policies.drop_last(), stanzas, table, mcp_default).1,
            aliases::policies_lowered(policies, stanzas, table, mcp_default).1,
        ),
{
    let before = aliases::policies_lowered(policies.drop_last(), stanzas, table, mcp_default).1;
    if let Some(items) = policies.last().1.array_field("endpoints"@) {
        faults_of_endpoints_add_up(
            items,
            before,
            policies.last().0,
            stanzas,
            aliases::policy_outcomes(table, policies.len() - 1),
            mcp_default,
        );
    }
}

/// The configurations that are to be lowered are those that the endpoint has, one
/// for each stanza. A stanza that is null or not there has none, and neither has
/// a JSON-RPC stanza beside an MCP stanza.
pub proof fn configurations_are_those_of_the_endpoint(
    endpoint: Entries,
    stanzas: Seq<ConfigStanza>,
    i: int,
)
    requires
        json::distinct_keys(endpoint),
        0 <= i < stanzas.len(),
    ensures
        ({
            let list = aliases::configs(endpoint, stanzas);
            let key = stanzas[i].key@;
            &&& list.len() == stanzas.len()
            &&& list[i] is None <==> json::lookup(endpoint, key) is None || json::lookup(
                endpoint,
                key,
            ) == Some(Json::Null) || (key == "json_rpc"@ && json::lookup(endpoint, "mcp"@) is Some)
            &&& list[i] is Some ==> list[i] == json::lookup(endpoint, key)
        }),
{
    mcp_stanza_takes_precedence(endpoint, stanzas[i].key@);
}

/// The MCP fields of an endpoint that lacks its versions get their defaults.
pub proof fn missing_versions_get_their_defaults(
    endpoint: Entries,
    errors: Seq<Seq<char>>,
    location: Seq<char>,
    defaults: Entries,
    key: Seq<char>,
    protocol: Seq<char>,
)
    requires
        json::lookup(endpoint, "protocol"@) == Some(Json::Text(protocol)),
        crate::text::lowered(protocol) == "mcp"@,
        json::lookup(endpoint, "mcp"@) is None,
        json::lookup(endpoint, "mcp_versions"@) is None,
        json::distinct_keys(defaults),
    ensures
        ({
            let after = aliases::endpoint_lowered(
                endpoint,
                errors,
                location,
                seq![],
                seq![],
                Ok(defaults),
            );
            &&& after.errors == errors
            &&& json::lookup(after.endpoint, key) == match json::lookup(defaults, key) {
                Some(value) => Some(value),
                None => json::lookup(endpoint, key),
            }
        }),
{
    reveal_strlit("mcp");
    let word = "mcp"@;
    assert forall|i: int| 0 <= i < word.len() implies #[trigger] crate::text::lowered(word)[i]
        == word[i] by {
        assert('a' <= word[i] && word[i] <= 'z');
    }
    assert(crate::text::lowered(word) =~= word);
    lemma_with_fields(endpoint, defaults, key);
}

proof fn lemma_with_fields(object: Entries, fields: Entries, key: Seq<char>)
    requires
        json::distinct_keys(fields),
    ensures
        json::lookup(aliases::with_fields(object, fields), key) == match json::lookup(
            fields,
            key,
        ) {
            Some(value) => Some(value),
            None => json::lookup(object, key),
        },
    decreases fields.len(),
{
    json::lemma_position(fields, key);
    if fields.len() > 0 {
        let front = fields.drop_last();
        assert forall|i: int, j: int| 0 <= i < j < front.len() implies (#[trigger] front[i]).0 != (
        #[trigger] front[j]).0 by {
            assert(front[i] == fields[i] && front[j] == fields[j]);
        }
        let name = fields.last().0;
        lemma_with_fields(object, front, key);
        json::lookup_after_set(aliases::with_fields(object, front), name, fields.last().1, key);
        json::lemma_position(front, key);
        let at = json::position(front, key);
        if at < front.len() {
            assert(front[at] == fields[at]);
            assert(fields[at].0 != fields[fields.len() - 1].0);
            assert forall|i: int| 0 <= i < at implies (#[trigger] fields[i]).0 != key by {
                assert(fields[i] == front[i]);
            }
            json::lemma_position_is(fields, key, at);
        } else {
            assert forall|i: int| 0 <= i < front.len() implies (#[trigger] fields[i]).0 != key by {
                assert(fields[i] == front[i]);
            }
            if name == key {
                json::lemma_position_is(fields, key, fields.len() - 1);
            } else {
                json::lemma_position_is(fields, key, fields.len() as int);
            }
        }
    }
}

/// The configurations of all policies are asked for, by policy and endpoint, each
/// in its place.
pub proof fn configurations_are_asked_for_in_place(
    data: Entries,
    policies: Entries,
    stanzas: Seq<ConfigStanza>,
    i: int,
    items: Seq<Json>,
    j: int,
    endpoint: Entries,
)
    requires
        json::lookup(data, "network_policies"@) == Some(Json::Object(policies)),
        0 <= i < policies.len(),
        policies[i].1.array_field("endpoints"@) == Some(items),
        0 <= j < items.len(),
        items[j] == Json::Object(endpoint),
    ensures
        ({
            let table = aliases::data_configs(Json::Object(data), stanzas);
            &&& table.len() == policies.len()
            &&& table[i].len() == items.len()
            &&& table[i][j] == aliases::configs(endpoint, stanzas)
        }),
{
}

/// The stanzas of an endpoint are lowered one after the other, all of them, each by
/// its own outcome.
pub proof fn every_stanza_is_lowered(
    start: Lowered,
    location: Seq<char>,
    stanzas: Seq<ConfigStanza>,
    outcomes: Seq<Lowering>,
    stanza: ConfigStanza,
    outcome: Lowering,
)
    requires
        stanzas.len() == outcomes.len(),
    ensures
        ({
            let n = stanzas.len() as int;
            aliases::stanzas_lowered(
                start,
                location,
                stanzas.push(stanza),
                outcomes.push(outcome),
                n + 1,
            ) == aliases::stanza_lowered(
                aliases::stanzas_lowered(start, location, stanzas, outcomes, n),
                location,
                stanza,
                outcome,
            )
        }),
{
    lemma_more_stanzas(
        start,
        location,
        stanzas,
        outcomes,
        stanza,
        outcome,
        stanzas.len() as int,
    );
}

proof fn lemma_more_stanzas(
    start: Lowered,
    location: Seq<char>,
    stanzas: Seq<ConfigStanza>,
    outcomes: Seq<Lowering>,
    stanza: ConfigStanza,
    outcome: Lowering,
    n: int,
)
    requires
        stanzas.len() == outcomes.len(),
        n <= stanzas.len(),
    ensures
        aliases::stanzas_lowered(
            start,
            location,
            stanzas.push(stanza),
            outcomes.push(outcome),
            n,
        ) == aliases::stanzas_lowered(start, location, stanzas, outcomes, n),
    decreases n,
{
    if n > 0 {
        lemma_more_stanzas(start, location, stanzas, outcomes, stanza, outcome, n - 1);
    }
}

/// An endpoint that has its MCP versions, or is no MCP endpoint, is lowered by its
/// stanzas alone. One that lacks them where there is no default is at fault.
pub proof fn endpoint_is_lowered_by_its_stanzas(
    endpoint: Entries,
    errors: Seq<Seq<char>>,
    location: Seq<char>,
    stanzas: Seq<ConfigStanza>,
    outcomes: Seq<Lowering>,
    mcp_default: Lowering,
)
    ensures
        ({
            let lowered = aliases::stanzas_lowered(
                Lowered { endpoint: aliases::preferred(endpoint), errors },
                location,
                stanzas,
                outcomes,
                stanzas.len() as int,
            );
            let after = aliases::endpoint_lowered(
                endpoint,
                errors,
                location,
                stanzas,
                outcomes,
                mcp_default,
            );
            let has_versions = json::lookup(lowered.endpoint, "mcp_versions"@) is Some;
            let names_protocol = json::lookup(lowered.endpoint, "protocol"@) matches Some(
                Json::Text(_),
            );
            &&& has_versions || !names_protocol ==> after == lowered
            &&& after.errors.len() > lowered.errors.len() ==> mcp_default is Err && !has_versions
        }),
{
}

} // verus!
