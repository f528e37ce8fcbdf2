//! What holds of every request that is handed to the policy rules and of every
//! result that is read.

use crate::json::{Json, NumberModel};
use crate::opa::builder;
use crate::opa::builder_laws;
use crate::opa::decisions;
use crate::opa::decisions::{ActionModel, EndpointModel, LandlockCompatibility, NetworkInput};
use crate::opa::document_fields::is_texts;
use crate::opa::engine;
use crate::opa::keys;
use crate::opa::rego;
use crate::opa::rego::Rego;
use crate::text;
use vstd::prelude::*;

verus! {

broadcast use builder_laws::group_found;

/// In the document for a request, `exec` holds the binary path, the texts of the
/// ancestors and the texts of the command-line paths, each list in order under
/// its own key; `network` holds the host and the port.
pub proof fn request_is_found_in_its_document(input: NetworkInput)
    ensures
        ({
            let process = decisions::input_document(input).field("exec"@);
            let network = decisions::input_document(input).field("network"@);
            &&& process is Some
            &&& process->Some_0.field("path"@) == Some(Json::Text(input.binary_path@))
            &&& process->Some_0.field("ancestors"@) matches Some(list) && is_texts(
                list,
                input.ancestors@,
            )
            &&& process->Some_0.field("cmdline_paths"@) matches Some(list) && is_texts(
                list,
                input.cmdline_paths@,
            )
            &&& network is Some
            &&& network->Some_0.field("host"@) == Some(Json::Text(input.host@))
            &&& network->Some_0.field("port"@) == Some(
                Json::Number(NumberModel::Integer(input.port as int)),
            )
        }),
{
    keys::lemma_marks();
    let ancestors = builder::text_array(text::texts(input.ancestors@));
    let paths = builder::text_array(text::texts(input.cmdline_paths@));
    assert(is_texts(ancestors, input.ancestors@));
    assert(is_texts(paths, input.cmdline_paths@));
    let process = seq![
        ("path"@, Json::Text(input.binary_path@)),
        ("ancestors"@, ancestors),
        ("cmdline_paths"@, paths),
    ];
    let network = seq![
        ("host"@, Json::Text(input.host@)),
        ("port"@, Json::Number(NumberModel::Integer(input.port as int))),
    ];
    let all = seq![("exec"@, Json::Object(process)), ("network"@, Json::Object(network))];
    assert(all =~= builder::entry("exec"@, Json::Object(process)) + builder::entry(
        "network"@,
        Json::Object(network),
    ));
    assert(process =~= builder::entry("path"@, Json::Text(input.binary_path@)) + builder::entry(
        "ancestors"@,
        ancestors,
    ) + builder::entry("cmdline_paths"@, paths));
    assert(network =~= builder::entry("host"@, Json::Text(input.host@)) + builder::entry(
        "port"@,
        Json::Number(NumberModel::Integer(input.port as int)),
    ));
    builder_laws::found_is_lookup(all, "exec"@);
    builder_laws::found_is_lookup(all, "network"@);
    builder_laws::found_is_lookup(process, "path"@);
    builder_laws::found_is_lookup(process, "ancestors"@);
    builder_laws::found_is_lookup(process, "cmdline_paths"@);
    builder_laws::found_is_lookup(network, "host"@);
    builder_laws::found_is_lookup(network, "port"@);
    assert(decisions::input_document(input) == Json::Object(all));
}

/// The hash of a binary is no part of the document: requests that differ in it
/// alone are the same to the policy rules, and two requests with the same
/// document agree in everything else.
pub proof fn document_tells_requests_apart(a: NetworkInput, b: NetworkInput)
    ensures
        decisions::input_document(a) == decisions::input_document(b) <==> {
            &&& a.host@ == b.host@
            &&& a.port == b.port
            &&& a.binary_path@ == b.binary_path@
            &&& text::texts(a.ancestors@) == text::texts(b.ancestors@)
            &&& text::texts(a.cmdline_paths@) == text::texts(b.cmdline_paths@)
        },
{
    request_is_found_in_its_document(a);
    request_is_found_in_its_document(b);
    if decisions::input_document(a) == decisions::input_document(b) {
        let x = builder::text_array(text::texts(a.ancestors@));
        assert forall|i: int| 0 <= i < a.ancestors@.len() implies #[trigger] text::texts(
            a.ancestors@,
        )[i] == text::texts(b.ancestors@)[i] by {
            let process = decisions::input_document(a).field("exec"@)->Some_0;
            let list = process.field("ancestors"@)->Some_0->Array_0;
            assert(list[i] == Json::Text(a.ancestors@[i]@));
            assert(list[i] == Json::Text(b.ancestors@[i]@));
        }
        assert(text::texts(a.ancestors@) =~= text::texts(b.ancestors@));
        assert forall|i: int| 0 <= i < a.cmdline_paths@.len() implies #[trigger] text::texts(
            a.cmdline_paths@,
        )[i] == text::texts(b.cmdline_paths@)[i] by {
            let process = decisions::input_document(a).field("exec"@)->Some_0;
            let list = process.field("cmdline_paths"@)->Some_0->Array_0;
            assert(list[i] == Json::Text(a.cmdline_paths@[i]@));
            assert(list[i] == Json::Text(b.cmdline_paths@[i]@));
        }
        assert(text::texts(a.cmdline_paths@) =~= text::texts(b.cmdline_paths@));
    }
}

/// A request is allowed where the rule on access gives `true`, and by no other
/// result. The reason is the text of the rule on reasons, and a policy is named
/// where a rule matched one.
pub proof fn only_true_allows(
    allowed: Rego,
    reason: Option<Seq<char>>,
    matched: Rego,
    matched_text: Option<Seq<char>>,
)
    ensures
        decisions::decision(allowed, reason, matched, matched_text) is None <==> reason is None || (
        matched != Rego::Undefined && matched_text is None),
        decisions::decision(allowed, reason, matched, matched_text) matches Some(decision) ==> {
            &&& decision.allowed <==> allowed == Rego::Bool(true)
            &&& Some(decision.reason) == reason
            &&& decision.matched_policy == if matched == Rego::Undefined {
                None
            } else {
                matched_text
            }
        },
{
}

/// The text of a result is the text that a rule gave; no result is the empty
/// text; anything else is told by its JSON text.
pub proof fn texts_stand_for_themselves(s: Seq<char>, value: Rego, displayed: Option<Seq<char>>)
    ensures
        decisions::text_of(Rego::Text(s), displayed) == Some(s),
        decisions::text_of(Rego::Undefined, displayed) == Some(Seq::<char>::empty()),
        !(value is Text) && value != Rego::Undefined ==> decisions::text_of(value, displayed)
            == displayed,
{
}

/// Whether a result of the authorization rule names the text under a key, with
/// at least one character.
pub open spec fn names(value: Rego, key: Seq<char>, s: Seq<char>) -> bool {
    s.len() > 0 && rego::field(value, key) == Some(Rego::Text(s))
}

/// Egress is allowed only by the action `allow`, for the policy that the result
/// names, if it names one. Anything else is a denial, for the reason that the
/// result names, or for the general one. The rest of the result is taken over as
/// it is, with the generation.
pub proof fn authorization_says_what_the_rule_gave(value: Rego, generation: u64)
    ensures
        ({
            let given = decisions::authorization(value, generation);
            &&& match given.action {
                ActionModel::Allow(policy) => {
                    &&& rego::field(value, "action"@) == Some(Rego::Text("allow"@))
                    &&& policy matches Some(name) ==> names(value, "matched_policy"@, name)
                    &&& policy is None ==> forall|name: Seq<char>|
                        !#[trigger] names(value, "matched_policy"@, name)
                },
                ActionModel::Deny(reason) => {
                    &&& rego::field(value, "action"@) != Some(Rego::Text("allow"@))
                    &&& names(value, "deny_reason"@, reason) || (reason
                        == "network connections not allowed by policy"@ && forall|other: Seq<char>|
                        !#[trigger] names(value, "deny_reason"@, other))
                },
            }
            &&& match rego::field(value, "endpoint_configs"@) {
                Some(Rego::Array(items)) => given.endpoint_configs == items,
                _ => given.endpoint_configs.len() == 0,
            }
            &&& match rego::field(value, "matched_endpoints"@) {
                Some(Rego::Array(items)) => given.matched_endpoints
                    == decisions::recorded_endpoints(items),
                _ => given.matched_endpoints.len() == 0,
            }
            &&& given.exact_declared_endpoint_host <==> rego::field(
                value,
                "exact_declared_endpoint_host"@,
            ) == Some(Rego::Bool(true))
            &&& given.generation == generation
        }),
{
    assert(decisions::recorded_endpoints(Seq::<Rego>::empty()).len() == 0);
}

/// A quarantine denies for its own reason, and shows no endpoint.
pub proof fn quarantine_denies(reason: Seq<char>, generation: u64)
    ensures
        ({
            let given = decisions::quarantine_authorization(reason, generation);
            &&& given.action == ActionModel::Deny(reason)
            &&& given.endpoint_configs.len() == 0
            &&& given.matched_endpoints.len() == 0
            &&& !given.exact_declared_endpoint_host
            &&& given.generation == generation
        }),
{
}

/// An endpoint is recorded where the policy name is a text, the index is an
/// integer from zero up that fits, and the endpoint is there; it is recorded with
/// just these.
pub proof fn recorded_endpoint_is_as_given(
    value: Rego,
    policy_name: Seq<char>,
    index: i64,
    decimal: Seq<char>,
    endpoint: Rego,
)
    requires
        rego::field(value, "policy_name"@) == Some(Rego::Text(policy_name)),
        rego::field(value, "endpoint_index"@) == Some(Rego::Number(Some(index), decimal)),
        rego::field(value, "endpoint"@) == Some(endpoint),
    ensures
        decisions::matched_endpoint(value) == if 0 <= index <= usize::MAX {
            Some(EndpointModel { policy_name, endpoint_index: index as int, endpoint })
        } else {
            None
        },
{
}

/// A record without a policy name, an index or an endpoint records nothing.
pub proof fn incomplete_record_records_nothing(value: Rego)
    requires
        !(rego::field(value, "policy_name"@) matches Some(Rego::Text(_))) || !(rego::field(
            value,
            "endpoint_index"@,
        ) matches Some(Rego::Number(Some(_), _))) || rego::field(value, "endpoint"@) is None,
    ensures
        decisions::matched_endpoint(value) is None,
{
}

/// Records are read one by one, in order: two lists in a row give the endpoints
/// of the one and then those of the other, and a single record gives its own.
pub proof fn records_are_read_in_order(a: Seq<Rego>, b: Seq<Rego>, one: Rego)
    ensures
        decisions::recorded_endpoints(a + b) == decisions::recorded_endpoints(a)
            + decisions::recorded_endpoints(b),
        decisions::recorded_endpoints(seq![one]) == match decisions::matched_endpoint(one) {
            Some(endpoint) => seq![endpoint],
            None => Seq::<EndpointModel>::empty(),
        },
    decreases b.len(),
{
    assert(decisions::recorded_endpoints(Seq::<Rego>::empty()) == Seq::<EndpointModel>::empty());
    assert(seq![one].drop_last() == Seq::<Rego>::empty());
    if b.len() > 0 {
        records_are_read_in_order(a, b.drop_last(), one);
        assert((a + b).drop_last() == a + b.drop_last());
        assert((a + b).last() == b.last());
    } else {
        assert(a + b == a);
    }
}

/// A rule gives as many records as there are in its array; a result that is no
/// array is one record, and no result is none. The first of them is the one that
/// matches first.
pub proof fn rule_records(value: Rego)
    ensures
        value matches Rego::Array(items) ==> decisions::records(value) == items,
        value == Rego::Undefined ==> decisions::records(value).len() == 0,
        !(value is Array) && value != Rego::Undefined ==> decisions::records(value) == seq![value],
        value matches Rego::Array(items) ==> engine::first_record(value) == if items.len() > 0 {
            Some(items[0])
        } else {
            None::<Rego>
        },
        value == Rego::Undefined ==> engine::first_record(value) is None,
{
}

/// The addresses that are allowed are the texts under `allowed_ips` of the first
/// record, in order; without a record there are none.
pub proof fn allowed_addresses_are_those_of_the_first_record(
    first: Rego,
    rest: Seq<Rego>,
    items: Seq<Rego>,
)
    requires
        rego::field(first, "allowed_ips"@) == Some(Rego::Array(items)),
    ensures
        engine::allowed_addresses(Rego::Array(seq![first] + rest)) == rego::texts_among(items),
        engine::allowed_addresses(Rego::Undefined).len() == 0,
{
    assert((seq![first] + rest)[0] == first);
}

/// Texts are taken from a list in order, and nothing else is.
pub proof fn texts_are_taken_in_order(a: Seq<Rego>, b: Seq<Rego>, one: Rego)
    ensures
        rego::texts_among(a + b) == rego::texts_among(a) + rego::texts_among(b),
        rego::texts_among(seq![one]) == match one {
            Rego::Text(s) => seq![s],
            _ => Seq::<Seq<char>>::empty(),
        },
    decreases b.len(),
{
    assert(rego::texts_among(Seq::<Rego>::empty()) == Seq::<Seq<char>>::empty());
    assert(seq![one].drop_last() == Seq::<Rego>::empty());
    if b.len() > 0 {
        texts_are_taken_in_order(a, b.drop_last(), one);
        assert((a + b).drop_last() == a + b.drop_last());
        assert((a + b).last() == b.last());
    } else {
        assert(a + b == a);
    }
}

/// The sandbox configuration is read from the results under their keys. The
/// working directory is left out only where a rule says so, and Landlock is a
/// hard requirement only where a rule says so.
pub proof fn sandbox_configuration_is_read(filesystem: Rego, landlock: Rego, process: Rego)
    ensures
        ({
            let config = decisions::config_of(filesystem, landlock, process);
            &&& match rego::field(filesystem, "read_only"@) {
                Some(Rego::Array(items)) => config.read_only == rego::texts_among(items),
                _ => config.read_only.len() == 0,
            }
            &&& match rego::field(filesystem, "read_write"@) {
                Some(Rego::Array(items)) => config.read_write == rego::texts_among(items),
                _ => config.read_write.len() == 0,
            }
            &&& !config.include_workdir <==> rego::field(filesystem, "include_workdir"@) == Some(
                Rego::Bool(false),
            )
            &&& config.compatibility == LandlockCompatibility::HardRequirement <==> rego::field(
                landlock,
                "compatibility"@,
            ) == Some(Rego::Text("hard_requirement"@))
            &&& config.run_as_user matches Some(user) ==> rego::field(process, "run_as_user"@)
                == Some(Rego::Text(user))
            &&& config.run_as_user is None ==> !(rego::field(
                process,
                "run_as_user"@,
            ) matches Some(Rego::Text(_)))
            &&& config.run_as_group matches Some(group) ==> rego::field(process, "run_as_group"@)
                == Some(Rego::Text(group))
            &&& config.run_as_group is None ==> !(rego::field(
                process,
                "run_as_group"@,
            ) matches Some(Rego::Text(_)))
        }),
{
}

/// The value under a key of a result is that of the first entry with the key, and
/// there is none where no entry has it.
pub proof fn first_entry_counts(object: Seq<(Rego, Rego)>, key: Seq<char>)
    ensures
        match rego::field(Rego::Object(object), key) {
            Some(value) => exists|i: int|
                0 <= i < object.len() && #[trigger] object[i] == (Rego::Text(key), value)
                    && forall|k: int| 0 <= k < i ==> (#[trigger] object[k]).0 != Rego::Text(key),
            None => forall|i: int| 0 <= i < object.len() ==> (#[trigger] object[i]).0 != Rego::Text(
                key,
            ),
        },
    decreases object.len(),
{
    if object.len() > 0 {
        if object[0].0 == Rego::Text(key) {
            assert(object[0] == (Rego::Text(key), object[0].1));
        } else {
            let rest = object.skip(1);
            first_entry_counts(rest, key);
            lemma_position_bound(rest, key);
            match rego::field(Rego::Object(rest), key) {
                Some(value) => {
                    let i = choose|i: int|
                        0 <= i < rest.len() && #[trigger] rest[i] == (Rego::Text(key), value)
                            && forall|k: int|
                            0 <= k < i ==> (#[trigger] rest[k]).0 != Rego::Text(key);
                    assert(object[i + 1] == rest[i]);
                    assert forall|k: int| 0 <= k < i + 1 implies (#[trigger] object[k]).0
                        != Rego::Text(key) by {
                        if k > 0 {
                            assert(rest[k - 1] == object[k]);
                        }
                    }
                    assert(rego::field(Rego::Object(object), key) == Some(value));
                },
                None => {
                    assert forall|i: int| 0 <= i < object.len() implies (#[trigger] object[i]).0
                        != Rego::Text(key) by {
                        if i > 0 {
                            assert(rest[i - 1] == object[i]);
                        }
                    }
                },
            }
        }
    }
}

proof fn lemma_position_bound(object: Seq<(Rego, Rego)>, key: Seq<char>)
    ensures
        0 <= rego::position(object, key) <= object.len(),
    decreases object.len(),
{
    if object.len() > 0 && object[0].0 != Rego::Text(key) {
        lemma_position_bound(object.skip(1), key);
    }
}

} // verus!
