//! What holds of every loading of policy.

use crate::json;
use crate::json::Json;
use crate::l7::json_text;
use crate::opa::aliases;
use crate::opa::aliases::{ConfigStanza, Lowering};
use crate::opa::builder::Entries;
use crate::opa::diagnostics;
use crate::opa::diagnostics::PolicyViolation;
use crate::opa::document;
use crate::opa::engine::DataModel;
use crate::opa::load;
use crate::opa::load::{Event, RawFileFault, Stage};
use crate::opa::normalize;
use crate::opa::normalize::EndpointPass;
use crate::opa::policy::SandboxPolicy;
use crate::opa::preparation_laws;
use vstd::prelude::*;

verus! {

/// Raw data goes on to the schema, unchanged, if it could be converted and has
/// its shape, and is rejected otherwise.
pub proof fn raw_data_needs_its_shape(data: Json)
    ensures
        preparation_laws::is_data_shape(data) ==> load::raw_start(Some(data)) == Stage::Schema(data),
        !preparation_laws::is_data_shape(data) ==> load::raw_start(Some(data)) is Rejected,
        load::raw_start(None) is Rejected,
{
    preparation_laws::only_well_shaped_data_is_accepted(data);
}

proof fn lemma_runtime_kept(data: Json, pass: EndpointPass)
    ensures
        normalize::data_passed(data, pass).field("runtime"@) == data.field("runtime"@),
{
    reveal_strlit("runtime");
    reveal_strlit("network_policies");
    assert("runtime"@.len() != "network_policies"@.len());
    if let Some(Json::Object(policies)) = data.field("network_policies"@) {
        json::lookup_after_set(
            data->Object_0,
            "network_policies"@,
            Json::Object(
                policies.map_values(
                    |pair: (Seq<char>, Json)| (pair.0, normalize::policy_passed(pair.1, pass)),
                ),
            ),
            "runtime"@,
        );
    }
}

/// Data that the schema accepts gets the identity requirement, and every endpoint
/// of every policy its canonical protocol and its list of ports. What the schema
/// rejects is rejected.
pub proof fn accepted_data_is_prepared(
    before: Json,
    data: Entries,
    policies: Entries,
    required: bool,
    i: int,
    policy: Entries,
    endpoints: Seq<Json>,
    j: int,
    endpoint: Entries,
    detail: Seq<char>,
)
    requires
        json::lookup(data, "network_policies"@) == Some(Json::Object(policies)),
        0 <= i < policies.len(),
        policies[i].1 == Json::Object(policy),
        json::lookup(policy, "endpoints"@) == Some(Json::Array(endpoints)),
        0 <= j < endpoints.len(),
        endpoints[j] == Json::Object(endpoint),
    ensures
        load::advanced(Stage::Schema(before), Event::Schema(Err(detail)), required).0 is Rejected,
        load::advanced(
            Stage::Schema(before),
            Event::Schema(Ok(Json::Object(data))),
            required,
        ).0 matches Stage::Stanzas(after) && {
            &&& after.field("runtime"@) matches Some(section) && section.field(
                "require_binary_identity"@,
            ) == Some(Json::Bool(required))
            &&& after.field("network_policies"@) matches Some(Json::Object(list)) && {
                &&& list.len() == policies.len()
                &&& list[i].0 == policies[i].0
                &&& list[i].1.field("endpoints"@) matches Some(Json::Array(items)) && {
                    &&& items.len() == endpoints.len()
                    &&& items[j] == Json::Object(
                        normalize::ports_normalized(normalize::protocol_normalized(endpoint)),
                    )
                }
            }
        },
{
    reveal_strlit("runtime");
    reveal_strlit("network_policies");
    assert("runtime"@.len() != "network_policies"@.len());
    let whole = Json::Object(data);
    preparation_laws::runtime_section_is_found(data, required, "network_policies"@);
    let injected = normalize::with_runtime(whole, required);
    let entries = injected->Object_0;
    preparation_laws::pass_reaches_every_endpoint(
        entries,
        policies,
        EndpointPass::Protocols,
        i,
        policy,
        endpoints,
    );
    lemma_runtime_kept(injected, EndpointPass::Protocols);
    let named = normalize::data_passed(injected, EndpointPass::Protocols);
    let named_policies = named.field("network_policies"@)->Some_0->Object_0;
    let named_policy = named_policies[i].1->Object_0;
    let named_endpoints = named_policies[i].1.field("endpoints"@)->Some_0->Array_0;
    assert(named_endpoints[j] == normalize::endpoint_passed(endpoints[j], EndpointPass::Protocols));
    preparation_laws::pass_reaches_every_endpoint(
        named->Object_0,
        named_policies,
        EndpointPass::Ports,
        i,
        named_policy,
        named_endpoints,
    );
    lemma_runtime_kept(named, EndpointPass::Ports);
    let listed = normalize::data_passed(named, EndpointPass::Ports);
    let items = listed.field("network_policies"@)->Some_0->Object_0[i].1.field(
        "endpoints"@,
    )->Some_0->Array_0;
    assert(items[j] == normalize::endpoint_passed(named_endpoints[j], EndpointPass::Ports));
}

/// Data whose stanzas were lowered goes on as lowered; one fault is enough to
/// reject it.
pub proof fn faulty_stanzas_reject(
    data: Json,
    stanzas: Seq<ConfigStanza>,
    table: Seq<Seq<Seq<Lowering>>>,
    mcp_default: Lowering,
    required: bool,
)
    ensures
        ({
            let (lowered, errors) = aliases::data_lowered(data, stanzas, table, mcp_default);
            let next = load::advanced(
                Stage::Stanzas(data),
                Event::Stanzas(stanzas, table, mcp_default),
                required,
            ).0;
            &&& errors.len() == 0 <==> next == Stage::Middleware(lowered)
            &&& errors.len() > 0 <==> next is Rejected
        }),
{
}

/// Middleware configuration without a violation lets the data go on unchanged;
/// one violation is enough to reject it.
pub proof fn violations_reject(data: Json, violations: Seq<PolicyViolation>, required: bool)
    ensures
        ({
            let next = load::advanced(
                Stage::Middleware(data),
                Event::Middleware(Ok(violations)),
                required,
            ).0;
            &&& violations.len() == 0 <==> next == Stage::Rules(data)
            &&& violations.len() > 0 <==> next is Rejected
            &&& load::advanced(
                Stage::Middleware(data),
                Event::Middleware(Err(())),
                required,
            ).0 is Rejected
        }),
{
}

/// Rules without an error let the data go on with its rules in runtime form and
/// every warning told, in order; one error is enough to reject it.
pub proof fn rule_errors_reject(data: Json, errors: nat, warnings: Seq<Seq<char>>, required: bool)
    ensures
        ({
            let (next, told) = load::advanced(
                Stage::Rules(data),
                Event::Rules(errors, warnings),
                required,
            );
            &&& errors == 0 <==> next == Stage::Presets(
                normalize::data_passed(data, EndpointPass::RuleAliases),
            )
            &&& errors > 0 <==> next is Rejected
            &&& errors == 0 ==> told.len() == warnings.len() && forall|i: int|
                0 <= i < told.len() ==> (warnings[i]).is_suffix_of(#[trigger] told[i])
                    && "L7 policy validation warning"@.is_prefix_of(told[i])
        }),
{
    lemma_prefixed("L7 policy validation warning"@, warnings);
}

proof fn lemma_prefixed(prefix: Seq<char>, warnings: Seq<Seq<char>>)
    ensures
        ({
            let told = load::prefixed(prefix, warnings);
            &&& told.len() == warnings.len()
            &&& forall|i: int|
                0 <= i < told.len() ==> (warnings[i]).is_suffix_of(#[trigger] told[i])
                    && prefix.is_prefix_of(told[i])
        }),
{
    let told = load::prefixed(prefix, warnings);
    assert forall|i: int| 0 <= i < told.len() implies (warnings[i]).is_suffix_of(#[trigger] told[i])
        && prefix.is_prefix_of(told[i]) by {
        let line = prefix + ": "@ + warnings[i];
        assert(told[i] == line);
        assert(warnings[i] =~= line.subrange(line.len() - warnings[i].len(), line.len() as int));
        assert(prefix =~= line.subrange(0, prefix.len() as int));
    }
}

/// Data whose presets were expanded is ready, as its JSON text, and every warning
/// is told, in order.
pub proof fn expanded_data_is_ready(
    before: Json,
    data: Json,
    warnings: Seq<Seq<char>>,
    required: bool,
)
    ensures
        ({
            let (next, told) = load::advanced(
                Stage::Presets(before),
                Event::Presets(data, warnings),
                required,
            );
            &&& next == Stage::Ready(json_text::json_text(data))
            &&& told.len() == warnings.len()
            &&& forall|i: int|
                0 <= i < told.len() ==> (warnings[i]).is_suffix_of(#[trigger] told[i])
                    && "L7 access preset expansion warning"@.is_prefix_of(told[i])
        }),
{
    lemma_prefixed("L7 access preset expansion warning"@, warnings);
}

/// The place of a stage in the sequence of checks.
pub open spec fn place(stage: Stage) -> int {
    match stage {
        Stage::Schema(_) => 0,
        Stage::Stanzas(_) => 1,
        Stage::Middleware(_) => 2,
        Stage::Rules(_) => 3,
        Stage::Presets(_) => 4,
        Stage::Ready(_) => 5,
        Stage::Rejected(_) => 6,
    }
}

/// The place of the stage at which an event is due.
pub open spec fn due(event: Event) -> int {
    match event {
        Event::Schema(_) => 0,
        Event::Stanzas(_, _, _) => 1,
        Event::Middleware(_) => 2,
        Event::Rules(_, _) => 3,
        Event::Presets(_, _) => 4,
    }
}

/// No check is passed over: an event that is due takes the loading to the next
/// check or ends it in a rejection, and one that is not due changes nothing.
pub proof fn no_check_is_passed_over(stage: Stage, event: Event, required: bool)
    ensures
        ({
            let (next, told) = load::advanced(stage, event, required);
            &&& place(stage) == due(event) ==> place(next) == place(stage) + 1 || next is Rejected
            &&& place(stage) != due(event) ==> next == stage && told.len() == 0
        }),
{
}

/// A typed policy goes on to the check of its rules if it is valid and its
/// endpoints are not ambiguous. Its data then says what the policy says and what
/// identity is required.
pub proof fn valid_policy_goes_on(
    policy: SandboxPolicy,
    violations: Vec<PolicyViolation>,
    ambiguities: nat,
    required: bool,
    key: Seq<char>,
)
    requires
        document::policy_data(policy) is Object,
        key != "runtime"@,
        key != "network_policies"@,
    ensures
        load::typed_start(Err(violations), ambiguities, required) is Rejected,
        ambiguities > 0 ==> load::typed_start(Ok(policy), ambiguities, required) is Rejected,
        ambiguities == 0 ==> (load::typed_start(Ok(policy), ambiguities, required) matches
            Stage::Rules(data) && {
            &&& data.field("runtime"@) matches Some(section) && section.field(
                "require_binary_identity"@,
            ) == Some(Json::Bool(required))
            &&& data.field(key) == document::policy_data(policy).field(key)
        }),
{
    let data = document::policy_data(policy);
    preparation_laws::runtime_section_is_found(data->Object_0, required, key);
    let injected = normalize::with_runtime(data, required);
    lemma_runtime_kept(injected, EndpointPass::Protocols);
    if let Some(Json::Object(policies)) = injected.field("network_policies"@) {
        json::lookup_after_set(
            injected->Object_0,
            "network_policies"@,
            Json::Object(
                policies.map_values(
                    |pair: (Seq<char>, Json)|
                        (pair.0, normalize::policy_passed(pair.1, EndpointPass::Protocols)),
                ),
            ),
            key,
        );
    }
}

/// An engine gets the document of a loading that is ready and the message of one
/// that was rejected, and nothing before that.
pub proof fn engine_gets_the_end_of_a_loading(stage: Stage)
    ensures
        load::prepared_of(stage) is None <==> place(stage) < 5,
        load::prepared_of(stage) matches Some(DataModel::Ready(document)) ==> stage
            == Stage::Ready(document),
        load::prepared_of(stage) matches Some(DataModel::Rejected(message)) ==> stage
            == Stage::Rejected(message),
{
}

proof fn lemma_heading(rendered: Seq<char>, categories: Seq<Seq<char>>, index: int)
    ensures
        rendered.is_prefix_of(diagnostics::rendered_on(rendered, categories, index)),
    decreases categories.len() - index,
{
    let all = diagnostics::rendered_on(rendered, categories, index);
    if 0 <= index < categories.len() {
        if diagnostics::is_left_out(rendered, categories[index], index) {
            assert(rendered =~= all.subrange(0, rendered.len() as int));
        } else {
            let next = rendered + diagnostics::separator(index) + categories[index];
            lemma_heading(next, categories, index + 1);
            assert(next == all.subrange(0, next.len() as int));
            assert(rendered =~= next.subrange(0, rendered.len() as int));
            assert(rendered =~= all.subrange(0, rendered.len() as int));
        }
    } else {
        assert(rendered =~= all.subrange(0, rendered.len() as int));
    }
}

/// A rejection says at its start which check failed.
pub proof fn rejection_names_its_check(
    data: Json,
    stanzas: Seq<ConfigStanza>,
    table: Seq<Seq<Seq<Lowering>>>,
    mcp_default: Lowering,
    violations: Vec<PolicyViolation>,
    policy: SandboxPolicy,
    count: nat,
    detail: Seq<char>,
    required: bool,
)
    ensures
        load::typed_start(Err(violations), count, required) matches Stage::Rejected(message)
            ==> "policy validation failed"@.is_prefix_of(message),
        load::typed_start(Ok(policy), count, required) matches Stage::Rejected(message)
            ==> "network endpoint ambiguity validation failed"@.is_prefix_of(message),
        load::advanced(Stage::Schema(data), Event::Schema(Err(detail)), required).0 matches
            Stage::Rejected(message) ==> "OPA policy schema validation failed"@.is_prefix_of(
            message,
        ) && detail.is_suffix_of(message),
        load::advanced(
            Stage::Stanzas(data),
            Event::Stanzas(stanzas, table, mcp_default),
            required,
        ).0 matches Stage::Rejected(message) ==> "L7 policy validation failed"@.is_prefix_of(
            message,
        ),
        load::advanced(
            Stage::Middleware(data),
            Event::Middleware(Ok(violations@)),
            required,
        ).0 matches Stage::Rejected(message)
            ==> "middleware policy validation failed"@.is_prefix_of(message),
        load::advanced(Stage::Rules(data), Event::Rules(count, seq![]), required).0 matches
            Stage::Rejected(message) ==> "L7 policy validation failed"@.is_prefix_of(message),
{
    lemma_heading("policy validation failed"@, load::categories(violations@), 0);
    lemma_heading(
        "network endpoint ambiguity validation failed"@,
        load::repeated(count, "ambiguous network endpoint selectors"@),
        0,
    );
    lemma_heading(
        "L7 policy validation failed"@,
        load::repeated(count, "invalid L7 policy configuration"@),
        0,
    );
    let errors = aliases::data_lowered(data, stanzas, table, mcp_default).1;
    lemma_heading(
        "L7 policy validation failed"@,
        load::repeated(errors.len(), "invalid L7 protocol configuration"@),
        0,
    );
    lemma_heading("middleware policy validation failed"@, load::categories(violations@), 0);
    reveal_strlit("OPA policy schema validation failed");
    reveal_strlit("OPA policy schema validation failed: ");
    let shown = "OPA policy schema validation failed: "@ + detail;
    assert(detail =~= shown.subrange(shown.len() - detail.len(), shown.len() as int));
    assert("OPA policy schema validation failed"@ =~= shown.subrange(
        0,
        "OPA policy schema validation failed"@.len() as int,
    ));
}

/// What the parser says of raw data is told, and nothing of it where the file
/// could not be read.
pub proof fn unreadable_file_tells_nothing(
    fault: RawFileFault,
    a: Seq<char>,
    b: Seq<char>,
    here: Option<(usize, usize)>,
    there: Option<(usize, usize)>,
)
    ensures
        !(fault is Contents) ==> load::file_message(fault, a, here) == load::file_message(
            fault,
            b,
            there,
        ),
        load::file_message(RawFileFault::Contents, a, None) == "failed to parse YAML data: "@ + a,
        ("failed to parse YAML data: "@ + a).is_prefix_of(
            load::file_message(RawFileFault::Contents, a, here),
        ),
{
    let front = "failed to parse YAML data: "@ + a;
    let shown = load::file_message(RawFileFault::Contents, a, here);
    assert(front =~= shown.subrange(0, front.len() as int));
}

} // verus!
