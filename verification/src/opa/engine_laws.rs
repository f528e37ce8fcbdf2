//! What holds of every policy engine and of what it is asked.

use crate::json::Json;
use crate::numeral;
use crate::numeral::Base;
use crate::opa::chain;
use crate::opa::decision_laws;
use crate::opa::decisions;
use crate::opa::engine;
use crate::opa::engine::{DataModel, EngineView, RulesTurn, TunnelView};
use crate::opa::evaluation;
use crate::opa::load;
use crate::opa::rego::Rego;
use crate::opa::activation;
use vstd::prelude::*;

verus! {

/// An engine is made exactly where the rules compile, the data is ready, and the
/// engine takes the data in.
pub proof fn engine_needs_rules_and_data(
    path: Seq<char>,
    rules: Seq<char>,
    data: DataModel,
    turn: RulesTurn,
)
    ensures
        engine::load_fault(path, rules, data, turn) is None <==> {
            &&& evaluation::rules_load(path, rules)
            &&& data matches DataModel::Ready(document) && evaluation::data_loads(seq![], document)
        },
{
}

/// What is wrong with the data is told in its own words where the rules compile.
/// Where they do not, the earlier of the two faults is told: rules that have the
/// first turn come before all data, those that have the second come behind the
/// decoding alone, and those that have the last come behind all of it.
pub proof fn earlier_fault_is_told(
    path: Seq<char>,
    rules: Seq<char>,
    message: Seq<char>,
    document: Seq<char>,
    turn: RulesTurn,
)
    ensures
        evaluation::rules_load(path, rules) ==> {
            &&& engine::load_fault(path, rules, DataModel::Undecoded(message), turn) == Some(
                message,
            )
            &&& engine::load_fault(path, rules, DataModel::Rejected(message), turn) == Some(message)
        },
        !evaluation::rules_load(path, rules) ==> {
            let fault = Some("failed to load Rego policy"@);
            &&& engine::load_fault(path, rules, DataModel::Ready(document), turn) == fault
            &&& engine::load_fault(
                path,
                rules,
                DataModel::Undecoded(message),
                RulesTurn::First,
            ) == fault
            &&& engine::load_fault(
                path,
                rules,
                DataModel::Rejected(message),
                RulesTurn::First,
            ) == fault
            &&& engine::load_fault(
                path,
                rules,
                DataModel::Undecoded(message),
                RulesTurn::Second,
            ) == Some(message)
            &&& engine::load_fault(
                path,
                rules,
                DataModel::Rejected(message),
                RulesTurn::Second,
            ) == fault
            &&& engine::load_fault(
                path,
                rules,
                DataModel::Undecoded(message),
                RulesTurn::Last,
            ) == Some(message)
            &&& engine::load_fault(
                path,
                rules,
                DataModel::Rejected(message),
                RulesTurn::Last,
            ) == Some(message)
        },
{
}

/// A new engine holds the rules and the data that it was made of and nothing else,
/// and is not in a quarantine.
pub proof fn new_engine_holds_what_it_was_given(
    path: Seq<char>,
    rules: Seq<char>,
    data: Seq<char>,
    identity: bool,
)
    ensures
        ({
            let made = engine::fresh(path, rules, data, identity);
            &&& made.rules.len() == 1 && made.rules[0].0 == path && made.rules[0].1 == rules
            &&& made.data.len() == 1 && made.data[0] == data
            &&& made.input.len() == 0
            &&& made.binary_identity_required == identity
            &&& made.generation == 0
            &&& made.quarantine is None
        }),
{
}

/// Generations go up by one, and start anew behind the last.
pub proof fn generations_go_up(generation: u64)
    ensures
        generation < u64::MAX ==> engine::next_generation(generation) == generation + 1,
        generation == u64::MAX ==> engine::next_generation(generation) == 0,
{
}

/// A quarantine has its reason, and leaving it changes an engine only where there
/// was one.
pub proof fn quarantine_has_its_reason(view: EngineView, reason: Seq<char>)
    ensures
        engine::quarantined(view, reason).quarantine == Some(reason),
        engine::quarantined(view, reason).rules == view.rules,
        engine::quarantined(view, reason).data == view.data,
        engine::released(view).quarantine is None,
        view.quarantine is None ==> engine::released(view) == view,
{
}

/// A request that can be an input is the whole input of the rule, on the rules and
/// data that the engine has, which stay. One that cannot is refused with its fault,
/// and the engine stays as it was.
pub proof fn request_is_the_whole_input(
    before: EngineView,
    after: EngineView,
    document: Json,
    rule: Seq<char>,
    result: Result<Rego, Seq<char>>,
)
    requires
        engine::answers(before, after, document, rule, result),
    ensures
        evaluation::input_fault(document) is None ==> {
            &&& after.input.len() == 1 && after.input[0] == document
            &&& after.rules == before.rules && after.data == before.data
            &&& after.generation == before.generation && after.quarantine == before.quarantine
            &&& after.binary_identity_required == before.binary_identity_required
            &&& evaluation::may_give(before.rules, before.data, after.input, rule, result)
        },
        evaluation::input_fault(document) matches Some(detail) ==> after == before && result
            == Err::<Rego, Seq<char>>(detail),
{
}

/// The evaluator of a tunnel answers as an engine does, and keeps the generation
/// that it was made for.
pub proof fn tunnel_answers_as_an_engine(
    before: TunnelView,
    after: TunnelView,
    document: Json,
    rule: Seq<char>,
    result: Result<Rego, Seq<char>>,
)
    requires
        engine::tunnel_answers(before, after, document, rule, result),
    ensures
        after.captured == before.captured,
        evaluation::input_fault(document) is None ==> {
            &&& after.input.len() == 1 && after.input[0] == document
            &&& after.rules == before.rules && after.data == before.data
            &&& evaluation::may_give(before.rules, before.data, after.input, rule, result)
        },
        evaluation::input_fault(document) matches Some(detail) ==> after == before && result
            == Err::<Rego, Seq<char>>(detail),
{
}

/// Whether the network rule on access gives a value.
pub open spec fn gives_access(view: EngineView, value: Rego) -> bool {
    evaluation::may_give(
        view.rules,
        view.data,
        view.input,
        "data.openshell.sandbox.allow_network"@,
        Ok(value),
    )
}

/// A decision allows a request only where the rule on access can give `true`, and
/// denies it only where the rule can give something else.
pub proof fn decision_follows_the_rule_on_access(view: EngineView, decision: decisions::Decision)
    requires
        engine::may_decide(view, Ok(decision)),
    ensures
        decision.allowed ==> gives_access(view, Rego::Bool(true)),
        !decision.allowed ==> exists|value: Rego|
            value != Rego::Bool(true) && #[trigger] gives_access(view, value),
{
    let allow = "data.openshell.sandbox.allow_network"@;
    let reason = "data.openshell.sandbox.deny_reason"@;
    let matched = "data.openshell.sandbox.matched_network_policy"@;
    let (a, b, c) = choose|a: Rego, b: Rego, c: Rego|
        {
            &&& #[trigger] engine::gives(view, allow, Ok(a))
            &&& #[trigger] engine::gives(view, reason, Ok(b))
            &&& #[trigger] engine::gives(view, matched, Ok(c))
            &&& decisions::decision(
                a,
                decisions::text_of(b, evaluation::displayed_text(b)),
                c,
                decisions::text_of(c, evaluation::displayed_text(c)),
            ) == Some(decision)
        };
    decision_laws::only_true_allows(
        a,
        decisions::text_of(b, evaluation::displayed_text(b)),
        c,
        decisions::text_of(c, evaluation::displayed_text(c)),
    );
    assert(gives_access(view, a));
}

/// Whether the network rule on reasons gives a value.
pub open spec fn gives_reason(view: EngineView, value: Rego) -> bool {
    evaluation::may_give(
        view.rules,
        view.data,
        view.input,
        "data.openshell.sandbox.deny_reason"@,
        Ok(value),
    )
}

/// Whether the network rule on matched policies gives a value.
pub open spec fn gives_match(view: EngineView, value: Rego) -> bool {
    evaluation::may_give(
        view.rules,
        view.data,
        view.input,
        "data.openshell.sandbox.matched_network_policy"@,
        Ok(value),
    )
}

/// The reason of a decision is the text of what the rule on reasons gives, and the
/// policy that it names is the text of what the rule on matched policies gives.
pub proof fn decision_gives_the_reason_of_the_rule(
    view: EngineView,
    decision: decisions::Decision,
)
    requires
        engine::may_decide(view, Ok(decision)),
    ensures
        exists|value: Rego| #[trigger]
            gives_reason(view, value) && decisions::text_of(
                value,
                evaluation::displayed_text(value),
            ) == Some(decision.reason),
        exists|value: Rego| #[trigger]
            gives_match(view, value) && (value == Rego::Undefined <==> decision.matched_policy
                is None) && (value != Rego::Undefined ==> decisions::text_of(
                value,
                evaluation::displayed_text(value),
            ) == decision.matched_policy),
{
    let allow = "data.openshell.sandbox.allow_network"@;
    let reason = "data.openshell.sandbox.deny_reason"@;
    let matched = "data.openshell.sandbox.matched_network_policy"@;
    let (a, b, c) = choose|a: Rego, b: Rego, c: Rego|
        {
            &&& #[trigger] engine::gives(view, allow, Ok(a))
            &&& #[trigger] engine::gives(view, reason, Ok(b))
            &&& #[trigger] engine::gives(view, matched, Ok(c))
            &&& decisions::decision(
                a,
                decisions::text_of(b, evaluation::displayed_text(b)),
                c,
                decisions::text_of(c, evaluation::displayed_text(c)),
            ) == Some(decision)
        };
    decision_laws::only_true_allows(
        a,
        decisions::text_of(b, evaluation::displayed_text(b)),
        c,
        decisions::text_of(c, evaluation::displayed_text(c)),
    );
    assert(gives_reason(view, b));
    assert(gives_match(view, c));
}

/// What the evaluation of a rule fails with is told as it is.
pub proof fn failure_of_a_rule_is_told(message: Seq<char>, value: Rego, generation: u64)
    ensures
        engine::authorized(Err(message), generation) == Err::<decisions::Authorization, Seq<char>>(
            message,
        ),
        engine::recorded(Err(message), generation) == Err::<(Seq<Rego>, u64), Seq<char>>(message),
        engine::authorized(Ok(value), generation) matches Ok(authorization)
            && authorization.generation == generation,
        engine::recorded(Ok(value), generation) matches Ok(given) && given.1 == generation
            && given.0 == decisions::records(value),
{
}

/// Whether the middleware rule gives a result.
pub open spec fn gives_middlewares(view: EngineView, result: Result<Rego, Seq<char>>) -> bool {
    evaluation::may_give(
        view.rules,
        view.data,
        view.input,
        "data.openshell.sandbox.network_middlewares"@,
        result,
    )
}

/// The middleware configurations are those that the middleware rule gives.
pub proof fn configurations_are_those_of_the_rule(view: EngineView, configs: Seq<Rego>)
    requires
        engine::may_configure(view.rules, view.data, view.input, Ok(configs)),
    ensures
        exists|value: Rego| #[trigger]
            gives_middlewares(view, Ok(value)) && chain::middleware_configs(
                value,
                evaluation::debug_text(value),
            ) == Ok::<Seq<Rego>, chain::ChainFault>(configs),
{
    let result = choose|result: Result<Rego, Seq<char>>|
        {
            &&& #[trigger] evaluation::may_give(
                view.rules,
                view.data,
                view.input,
                "data.openshell.sandbox.network_middlewares"@,
                result,
            )
            &&& Ok::<Seq<Rego>, chain::ChainFault>(configs) == match result {
                Ok(value) => chain::middleware_configs(value, evaluation::debug_text(value)),
                Err(message) => Err(chain::ChainFault::Evaluation(message)),
            }
        };
    if let Ok(value) = result {
        assert(gives_middlewares(view, Ok(value)));
    }
}

/// A stale guard tells the generation that it was made for, and then the one that
/// is current.
pub proof fn stale_guard_tells_both_generations(captured: u64, current: u64)
    ensures
        ({
            let message = engine::stale_message(captured, current);
            &&& ("policy generation is stale [captured_generation:"@ + numeral::numeral(
                captured as nat,
                Base::Decimal,
            ) + " "@).is_prefix_of(message)
            &&& (" current_generation:"@ + numeral::numeral(current as nat, Base::Decimal)
                + "]"@).is_suffix_of(message)
        }),
{
    reveal_strlit(" current_generation:");
    reveal_strlit(" ");
    let message = engine::stale_message(captured, current);
    let front = "policy generation is stale [captured_generation:"@ + numeral::numeral(
        captured as nat,
        Base::Decimal,
    );
    let back = " current_generation:"@ + numeral::numeral(current as nat, Base::Decimal) + "]"@;
    assert(message =~= front + back);
    assert(back[0] == ' ');
    assert(front + " "@ =~= message.subrange(0, (front.len() + 1) as int));
    assert(back =~= message.subrange(message.len() - back.len(), message.len() as int));
}

/// The notice of the identity requirement tells the source first, and then whether
/// identity is required.
pub proof fn notice_tells_the_requirement(required: bool, source: Seq<char>)
    ensures
        ({
            let notice = load::identity_notice(required, source);
            &&& ("OPA runtime binary identity mode configured [source:"@ + source).is_prefix_of(
                notice,
            )
            &&& (" require_binary_identity:"@ + (if required {
                "true"@
            } else {
                "false"@
            }) + "]"@).is_suffix_of(notice)
        }),
{
    let notice = load::identity_notice(required, source);
    let front = "OPA runtime binary identity mode configured [source:"@ + source;
    let back = " require_binary_identity:"@ + (if required {
        "true"@
    } else {
        "false"@
    }) + "]"@;
    assert(notice =~= front + back);
    assert(front =~= notice.subrange(0, front.len() as int));
    assert(back =~= notice.subrange(notice.len() - back.len(), notice.len() as int));
}

/// The message for raw data that does not parse tells the line and the column
/// where they are known.
pub proof fn parse_error_tells_its_place(detail: Seq<char>, line: usize, column: usize)
    ensures
        (" at line "@ + numeral::numeral(line as nat, Base::Decimal) + ", column "@
            + numeral::numeral(column as nat, Base::Decimal)).is_suffix_of(
            load::parse_message(detail, Some((line, column))),
        ),
{
    let message = load::parse_message(detail, Some((line, column)));
    let back = " at line "@ + numeral::numeral(line as nat, Base::Decimal) + ", column "@
        + numeral::numeral(column as nat, Base::Decimal);
    let front = "failed to parse YAML data: "@ + detail;
    assert(message =~= front + back);
    assert(back =~= message.subrange(message.len() - back.len(), message.len() as int));
}

/// An activation makes its candidate of the built-in rules and the data that was
/// prepared, or fails with what the loading fails with.
pub proof fn candidate_is_made_of_rules_and_data(rules: Seq<char>, data: DataModel)
    ensures
        match activation::candidate(rules, data) {
            Ok(made) => {
                &&& data matches DataModel::Ready(document) && made.data == seq![document]
                &&& made.rules.len() == 1 && made.rules[0].0 == "policy.rego"@ && made.rules[0].1
                    == rules
                &&& engine::load_fault("policy.rego"@, rules, data, RulesTurn::Last) is None
            },
            Err(message) => engine::load_fault("policy.rego"@, rules, data, RulesTurn::Last)
                == Some(message),
        },
{
}

} // verus!
