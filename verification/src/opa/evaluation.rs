//! Calls into the policy evaluator, from plain values to plain values.

use crate::json::{Json, JsonValue};
use crate::l7::mcp_inspection::to_wire;
use crate::opa::rego::{Rego, RegoNumber, RegoValue};
use regorus::Value;
use vstd::prelude::*;

verus! {

/// A policy evaluator of the `regorus` crate.
#[verifier::external_type_specification]
#[verifier::external_body]
pub struct ExRegorusEngine(regorus::Engine);

/// A value of the `regorus` crate.
#[verifier::external_type_specification]
#[verifier::external_body]
pub struct ExRegorusValue(regorus::Value);

/// The rule files that an evaluator holds: the path and the text of each.
pub uninterp spec fn engine_rules(engine: regorus::Engine) -> Seq<(Seq<char>, Seq<char>)>;

/// The JSON texts of the data documents that an evaluator holds.
pub uninterp spec fn engine_data(engine: regorus::Engine) -> Seq<Seq<char>>;

/// The input document that an evaluator holds: one, or none.
pub uninterp spec fn engine_input(engine: regorus::Engine) -> Seq<Json>;

/// Whether the evaluation of a rule against rule files, data documents and an
/// input may give a result. More than one result may be possible: rules can
/// draw random numbers, and which of several failures is reported is open.
pub uninterp spec fn may_give(
    rules: Seq<(Seq<char>, Seq<char>)>,
    data: Seq<Seq<char>>,
    input: Seq<Json>,
    rule: Seq<char>,
    result: Result<Rego, Seq<char>>,
) -> bool;

/// Whether the evaluator can parse a rule file.
pub uninterp spec fn rules_load(path: Seq<char>, rules: Seq<char>) -> bool;

/// Whether the evaluator can merge a data document with those that it holds.
pub uninterp spec fn data_loads(held: Seq<Seq<char>>, data: Seq<char>) -> bool;

/// Why the evaluator cannot take a document as its input, if it cannot.
pub uninterp spec fn input_fault(input: Json) -> Option<Seq<char>>;

/// The JSON text in which the evaluator displays a value, if it has one.
pub uninterp spec fn displayed_text(value: Rego) -> Option<Seq<char>>;

/// The text in which the evaluator prints a value for debugging.
pub uninterp spec fn debug_text(value: Rego) -> Seq<char>;

/// The result of a rule with the texts that stand for it in messages.
#[derive(Debug)]
pub struct Evaluated {
    pub value: RegoValue,
    pub displayed: Option<String>,
    pub debug: String,
}

/// What a result that may have failed denotes.
pub open spec fn outcome_of(result: Result<Evaluated, String>) -> Result<Rego, Seq<char>> {
    match result {
        Ok(evaluated) => Ok(evaluated.value@),
        Err(detail) => Err(detail@),
    }
}

/// The text that a result is displayed as, if it has one.
pub open spec fn displayed_of(evaluated: Evaluated) -> Option<Seq<char>> {
    match evaluated.displayed {
        Some(shown) => Some(shown@),
        None => None,
    }
}

/// `regorus::Value` as a plain value, variant by variant.
#[verifier::external_body]
fn plain_value(value: &regorus::Value) -> RegoValue {
    match value {
        Value::Null => RegoValue::Null,
        Value::Bool(b) => RegoValue::Bool(*b),
        Value::Number(n) => RegoValue::Number(
            RegoNumber { integer: n.as_i64(), decimal: n.format_decimal() },
        ),
        Value::String(s) => RegoValue::Text(s.to_string()),
        Value::Array(items) => RegoValue::Array(items.iter().map(plain_value).collect()),
        Value::Set(items) => RegoValue::Members(items.iter().map(plain_value).collect()),
        Value::Object(map) => RegoValue::Object(
            map.iter().map(|(k, v)| (plain_value(k), plain_value(v))).collect(),
        ),
        Value::Undefined => RegoValue::Undefined,
    }
}

/// `regorus::Engine::new` gives an evaluator that holds nothing.
#[verifier::external_body]
pub(crate) fn new_engine() -> (engine: regorus::Engine)
    ensures
        engine_rules(engine) == Seq::<(Seq<char>, Seq<char>)>::empty(),
        engine_data(engine) == Seq::<Seq<char>>::empty(),
        engine_input(engine) == Seq::<Json>::empty(),
{
    regorus::Engine::new()
}

/// `regorus::Engine::add_policy` adds a rule file where it parses, which
/// depends on the file alone. Data and input stay as they are. What a failed
/// call leaves among the rules is not said.
#[verifier::external_body]
pub(crate) fn add_rules(engine: &mut regorus::Engine, path: &str, rules: &str) -> (r: Result<
    (),
    String,
>)
    ensures
        r is Ok <==> rules_load(path@, rules@),
        r is Ok ==> engine_rules(*final(engine)) == engine_rules(*old(engine)).push(
            (path@, rules@),
        ),
        engine_data(*final(engine)) == engine_data(*old(engine)),
        engine_input(*final(engine)) == engine_input(*old(engine)),
{
    match engine.add_policy(path.to_string(), rules.to_string()) {
        Ok(_) => Ok(()),
        Err(error) => Err(error.to_string()),
    }
}

/// `regorus::Engine::add_data_json` merges a data document where it parses and
/// does not contradict those that are there. Rules and input stay as they are.
/// What a failed call leaves among the data is not said.
#[verifier::external_body]
pub(crate) fn add_data(engine: &mut regorus::Engine, data: &str) -> (r: Result<(), String>)
    ensures
        r is Ok <==> data_loads(engine_data(*old(engine)), data@),
        r is Ok ==> engine_data(*final(engine)) == engine_data(*old(engine)).push(data@),
        engine_rules(*final(engine)) == engine_rules(*old(engine)),
        engine_input(*final(engine)) == engine_input(*old(engine)),
{
    engine.add_data_json(data).map_err(|error| error.to_string())
}

/// `regorus::Engine::set_input` replaces the input document, once the document
/// is deserialized as a value of the evaluator. Whether it can be, or why not,
/// depends on the document alone. Rules and data stay as they are, and so does
/// the input where the document is refused.
#[verifier::external_body]
pub(crate) fn set_regorus_input(engine: &mut regorus::Engine, input: &JsonValue) -> (r: Result<
    (),
    String,
>)
    ensures
        match r {
            Ok(_) => input_fault(input@) is None,
            Err(detail) => input_fault(input@) == Some(detail@),
        },
        engine_input(*final(engine)) == if r is Ok {
            seq![input@]
        } else {
            engine_input(*old(engine))
        },
        engine_rules(*final(engine)) == engine_rules(*old(engine)),
        engine_data(*final(engine)) == engine_data(*old(engine)),
{
    match serde_json::from_value::<regorus::Value>(to_wire(input)) {
        Ok(value) => {
            engine.set_input(value);
            Ok(())
        },
        Err(error) => Err(error.to_string()),
    }
}

/// `regorus::Engine::eval_rule` evaluates a rule against what the evaluator
/// holds, which it leaves as it is. The texts beside the value are those that
/// its `Display`, which is `serde_json::to_string`, and its `Debug` write. That
/// equal calls give equal results is not said.
#[verifier::external_body]
pub(crate) fn eval_rule(engine: &mut regorus::Engine, rule: &str) -> (r: Result<Evaluated, String>)
    ensures
        may_give(
            engine_rules(*old(engine)),
            engine_data(*old(engine)),
            engine_input(*old(engine)),
            rule@,
            outcome_of(r),
        ),
        r matches Ok(evaluated) ==> displayed_of(evaluated) == displayed_text(evaluated.value@),
        r matches Ok(evaluated) ==> evaluated.debug@ == debug_text(evaluated.value@),
        engine_rules(*final(engine)) == engine_rules(*old(engine)),
        engine_data(*final(engine)) == engine_data(*old(engine)),
        engine_input(*final(engine)) == engine_input(*old(engine)),
{
    let value = engine.eval_rule(rule.to_string()).map_err(|error| error.to_string())?;
    Ok(
        Evaluated {
            displayed: serde_json::to_string(&value).ok(),
            debug: format!("{value:?}"),
            value: plain_value(&value),
        },
    )
}

/// `regorus::Engine::clone` gives an evaluator that holds the same.
#[verifier::external_body]
pub(crate) fn clone_engine(engine: &regorus::Engine) -> (r: regorus::Engine)
    ensures
        engine_rules(r) == engine_rules(*engine),
        engine_data(r) == engine_data(*engine),
        engine_input(r) == engine_input(*engine),
{
    engine.clone()
}

} // verus!
