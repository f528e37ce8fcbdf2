//! The policy engine: one set of rules and data, its generations, and its
//! quarantine.

use crate::json::{Json, JsonValue};
use crate::numeral;
use crate::numeral::{numeral_of, Base};
use crate::opa::chain;
use crate::opa::chain::{parse_middleware_configs, MiddlewareChainError};
use crate::opa::decisions;
use crate::opa::decisions::{
    authorize, decide_network, deny_quarantined, dns_endpoints, network_input_json, records_of,
    sandbox_config, EgressAuthorization, MatchedEndpoint, NetworkAction, NetworkInput,
    PolicyDecision, PolicyDnsEligibilitySnapshot, SandboxConfig,
};
use crate::opa::evaluation;
use crate::opa::evaluation::{
    add_data, add_rules, clone_engine, eval_rule, new_engine, set_regorus_input, Evaluated,
};
use crate::opa::rego;
use crate::opa::rego::{get_str_array, Rego, RegoValue};
use crate::text;
use vstd::prelude::*;

verus! {

/// Data for a new engine.
#[derive(Debug)]
pub enum PreparedData {
    /// The raw data could not be decoded.
    Undecoded(String),
    /// The data was decoded and then rejected.
    Rejected(String),
    /// The data document.
    Ready(String),
}

/// When rules are compiled, relative to the stages of the data. It decides
/// which of several faults is reported.
#[derive(Debug, Clone, Copy, PartialEq, Eq, Structural)]
pub enum RulesTurn {
    /// Before the data is decoded.
    First,
    /// Between decoding and the later stages.
    Second,
    /// After the data is ready.
    Last,
}

/// What a [`PreparedData`] denotes.
#[verifier::ext_equal]
pub enum DataModel {
    Undecoded(Seq<char>),
    Rejected(Seq<char>),
    Ready(Seq<char>),
}

impl View for PreparedData {
    type V = DataModel;

    open spec fn view(&self) -> DataModel {
        match self {
            PreparedData::Undecoded(message) => DataModel::Undecoded(message@),
            PreparedData::Rejected(message) => DataModel::Rejected(message@),
            PreparedData::Ready(document) => DataModel::Ready(document@),
        }
    }
}

/// What an engine holds.
#[verifier::ext_equal]
pub struct EngineView {
    pub rules: Seq<(Seq<char>, Seq<char>)>,
    pub data: Seq<Seq<char>>,
    pub input: Seq<Json>,
    pub binary_identity_required: bool,
    pub generation: u64,
    pub quarantine: Option<Seq<char>>,
}

/// The policy engine.
pub struct OpaEngine {
    engine: regorus::Engine,
    binary_identity_required: bool,
    generation: u64,
    fail_closed_reason: Option<String>,
}

impl View for OpaEngine {
    type V = EngineView;

    closed spec fn view(&self) -> EngineView {
        EngineView {
            rules: evaluation::engine_rules(self.engine),
            data: evaluation::engine_data(self.engine),
            input: evaluation::engine_input(self.engine),
            binary_identity_required: self.binary_identity_required,
            generation: self.generation,
            quarantine: rego::optional_text(self.fail_closed_reason),
        }
    }
}

/// A new engine with one rule file and one data document.
pub open spec fn fresh(path: Seq<char>, rules: Seq<char>, data: Seq<char>, identity: bool) -> EngineView {
    EngineView {
        rules: seq![(path, rules)],
        data: seq![data],
        input: seq![],
        binary_identity_required: identity,
        generation: 0,
        quarantine: None,
    }
}

/// Why no engine can be made of rules and data, if none can.
pub open spec fn load_fault(
    path: Seq<char>,
    rules: Seq<char>,
    data: DataModel,
    turn: RulesTurn,
) -> Option<Seq<char>> {
    let compiles = evaluation::rules_load(path, rules);
    let rules_fault = "failed to load Rego policy"@;
    match data {
        DataModel::Undecoded(message) => if turn == RulesTurn::First && !compiles {
            Some(rules_fault)
        } else {
            Some(message)
        },
        DataModel::Rejected(message) => if turn != RulesTurn::Last && !compiles {
            Some(rules_fault)
        } else {
            Some(message)
        },
        DataModel::Ready(document) => if !compiles {
            Some(rules_fault)
        } else if !evaluation::data_loads(seq![], document) {
            Some("failed to load OPA policy data"@)
        } else {
            None
        },
    }
}

/// The generation after a generation.
pub open spec fn next_generation(generation: u64) -> u64 {
    if generation == u64::MAX {
        0
    } else {
        (generation + 1) as u64
    }
}

/// An engine whose rules and data are replaced: a new generation, and no
/// quarantine.
pub open spec fn reloaded(old_engine: EngineView, new_engine: EngineView) -> EngineView {
    EngineView {
        generation: next_generation(old_engine.generation),
        binary_identity_required: old_engine.binary_identity_required,
        quarantine: None,
        ..new_engine
    }
}

/// An engine in a quarantine: a new generation, with rules and data kept.
pub open spec fn quarantined(engine: EngineView, reason: Seq<char>) -> EngineView {
    EngineView {
        generation: next_generation(engine.generation),
        quarantine: Some(reason),
        ..engine
    }
}

/// An engine whose quarantine, if it has one, is left: a new generation then,
/// with rules and data kept.
pub open spec fn released(engine: EngineView) -> EngineView {
    if engine.quarantine is Some {
        EngineView {
            generation: next_generation(engine.generation),
            quarantine: None,
            ..engine
        }
    } else {
        engine
    }
}

/// An engine that was given an input document.
pub open spec fn asked(engine: EngineView, document: Json) -> EngineView {
    EngineView { input: seq![document], ..engine }
}

/// Whether the evaluation of a rule by an engine may give a result.
pub open spec fn gives(engine: EngineView, rule: Seq<char>, result: Result<Rego, Seq<char>>) -> bool {
    evaluation::may_give(engine.rules, engine.data, engine.input, rule, result)
}

/// Whether a request document and a rule, handed to an engine, may take it
/// from one state to another with a result.
pub open spec fn answers(
    before: EngineView,
    after: EngineView,
    document: Json,
    rule: Seq<char>,
    result: Result<Rego, Seq<char>>,
) -> bool {
    match evaluation::input_fault(document) {
        Some(detail) => after == before && result == Err::<Rego, Seq<char>>(detail),
        None => after == asked(before, document) && gives(after, rule, result),
    }
}

/// What an authorization, or the failure to get one, denotes.
pub open spec fn authorization_outcome(r: Result<EgressAuthorization, String>) -> Result<
    decisions::Authorization,
    Seq<char>,
> {
    match r {
        Ok(authorization) => Ok(authorization@),
        Err(message) => Err(message@),
    }
}

/// What a result of the authorization rule leads to.
pub open spec fn authorized(result: Result<Rego, Seq<char>>, generation: u64) -> Result<
    decisions::Authorization,
    Seq<char>,
> {
    match result {
        Ok(value) => Ok(decisions::authorization(value, generation)),
        Err(message) => Err(message),
    }
}

/// The message for a result that has no text.
pub open spec fn no_text() -> Seq<char> {
    "policy result has no JSON text"@
}

/// Whether the evaluation of a rule by an engine may succeed.
pub open spec fn may_succeed(engine: EngineView, rule: Seq<char>) -> bool {
    exists|value: Rego| #[trigger] gives(engine, rule, Ok(value))
}

/// Whether an engine with its input given may come to a decision, or to a
/// failure. The rules are evaluated one after the other, up to the first that
/// fails.
pub open spec fn may_decide(engine: EngineView, r: Result<decisions::Decision, Seq<char>>) -> bool {
    let allow = "data.openshell.sandbox.allow_network"@;
    let reason = "data.openshell.sandbox.deny_reason"@;
    let matched = "data.openshell.sandbox.matched_network_policy"@;
    match r {
        Ok(decision) => exists|a: Rego, b: Rego, c: Rego|
            {
                &&& #[trigger] gives(engine, allow, Ok(a))
                &&& #[trigger] gives(engine, reason, Ok(b))
                &&& #[trigger] gives(engine, matched, Ok(c))
                &&& decisions::decision(
                    a,
                    decisions::text_of(b, evaluation::displayed_text(b)),
                    c,
                    decisions::text_of(c, evaluation::displayed_text(c)),
                ) == Some(decision)
            },
        Err(message) => {
            ||| gives(engine, allow, Err(message))
            ||| may_succeed(engine, allow) && gives(engine, reason, Err(message))
            ||| may_succeed(engine, allow) && may_succeed(engine, reason) && gives(
                engine,
                matched,
                Err(message),
            )
            ||| message == no_text() && may_succeed(engine, allow) && exists|b: Rego, c: Rego|
                {
                    &&& #[trigger] gives(engine, reason, Ok(b))
                    &&& #[trigger] gives(engine, matched, Ok(c))
                    &&& decisions::decision(
                        Rego::Null,
                        decisions::text_of(b, evaluation::displayed_text(b)),
                        c,
                        decisions::text_of(c, evaluation::displayed_text(c)),
                    ) is None
                }
        },
    }
}

/// What a decision, or the failure to get one, denotes.
pub open spec fn decision_outcome(r: Result<PolicyDecision, String>) -> Result<
    decisions::Decision,
    Seq<char>,
> {
    match r {
        Ok(decision) => Ok(decision@),
        Err(message) => Err(message@),
    }
}

/// What records with a generation, or the failure to get them, denote.
pub open spec fn records_outcome(r: Result<(Vec<RegoValue>, u64), String>) -> Result<
    (Seq<Rego>, u64),
    Seq<char>,
> {
    match r {
        Ok((list, generation)) => Ok((rego::values(list@), generation)),
        Err(message) => Err(message@),
    }
}

/// What a result of a rule that gives records leads to.
pub open spec fn recorded(result: Result<Rego, Seq<char>>, generation: u64) -> Result<
    (Seq<Rego>, u64),
    Seq<char>,
> {
    match result {
        Ok(value) => Ok((decisions::records(value), generation)),
        Err(message) => Err(message),
    }
}

/// Generation guard captured when a tunnel or a request path starts.
#[derive(Debug, Clone, Copy, PartialEq, Eq, Structural)]
pub struct PolicyGenerationGuard {
    pub captured: u64,
}

/// The message for a guard whose generation has passed.
pub open spec fn stale_message(captured: u64, current: u64) -> Seq<char> {
    "policy generation is stale [captured_generation:"@ + numeral::numeral(
        captured as nat,
        Base::Decimal,
    ) + " current_generation:"@ + numeral::numeral(current as nat, Base::Decimal) + "]"@
}

fn two_generations(lead: &str, first: u64, second: u64) -> (r: String)
    ensures
        r@ == lead@ + numeral::numeral(first as nat, Base::Decimal) + " current_generation:"@
            + numeral::numeral(second as nat, Base::Decimal) + "]"@,
{
    let mut r = lead.to_string();
    r.append(numeral_of(first, Base::Decimal).as_str());
    r.append(" current_generation:");
    r.append(numeral_of(second, Base::Decimal).as_str());
    r.append("]");
    r
}

impl PolicyGenerationGuard {
    /// The captured generation.
    pub fn captured_generation(&self) -> (r: u64)
        ensures
            r == self.captured,
    {
        self.captured
    }

    /// Whether the generation that is current is another one.
    pub fn is_stale(&self, current_generation: u64) -> (r: bool)
        ensures
            r == (current_generation != self.captured),
    {
        current_generation != self.captured
    }

    /// Fails where the generation that is current is another one.
    pub fn ensure_current(&self, current_generation: u64) -> (r: Result<(), String>)
        ensures
            match r {
                Ok(_) => current_generation == self.captured,
                Err(message) => current_generation != self.captured && message@ == stale_message(
                    self.captured,
                    current_generation,
                ),
            },
    {
        if self.is_stale(current_generation) {
            Err(
                two_generations(
                    "policy generation is stale [captured_generation:",
                    self.captured,
                    current_generation,
                ),
            )
        } else {
            Ok(())
        }
    }
}

/// What a tunnel's engine holds.
#[verifier::ext_equal]
pub struct TunnelView {
    pub rules: Seq<(Seq<char>, Seq<char>)>,
    pub data: Seq<Seq<char>>,
    pub input: Seq<Json>,
    pub captured: u64,
}

/// Per-tunnel policy evaluator, bound to the generation that was current when
/// the tunnel was established.
pub struct TunnelPolicyEngine {
    engine: regorus::Engine,
    generation_guard: PolicyGenerationGuard,
}

impl View for TunnelPolicyEngine {
    type V = TunnelView;

    closed spec fn view(&self) -> TunnelView {
        TunnelView {
            rules: evaluation::engine_rules(self.engine),
            data: evaluation::engine_data(self.engine),
            input: evaluation::engine_input(self.engine),
            captured: self.generation_guard.captured,
        }
    }
}

/// What the value of a rule, or the failure to get one, denotes.
pub open spec fn value_outcome(r: Result<RegoValue, String>) -> Result<Rego, Seq<char>> {
    match r {
        Ok(value) => Ok(value@),
        Err(message) => Err(message@),
    }
}

/// Whether an input document and a rule, handed to the evaluator of a tunnel,
/// may take it from one state to another with a result.
pub open spec fn tunnel_answers(
    before: TunnelView,
    after: TunnelView,
    document: Json,
    rule: Seq<char>,
    result: Result<Rego, Seq<char>>,
) -> bool {
    match evaluation::input_fault(document) {
        Some(detail) => after == before && result == Err::<Rego, Seq<char>>(detail),
        None => {
            &&& after == (TunnelView { input: seq![document], ..before })
            &&& evaluation::may_give(after.rules, after.data, after.input, rule, result)
        },
    }
}

/// What the middleware rule of rules and data may lead to.
pub open spec fn may_configure(
    rules: Seq<(Seq<char>, Seq<char>)>,
    data: Seq<Seq<char>>,
    input: Seq<Json>,
    r: Result<Seq<Rego>, chain::ChainFault>,
) -> bool {
    exists|result: Result<Rego, Seq<char>>|
        {
            &&& #[trigger] evaluation::may_give(
                rules,
                data,
                input,
                "data.openshell.sandbox.network_middlewares"@,
                result,
            )
            &&& r == match result {
                Ok(value) => chain::middleware_configs(value, evaluation::debug_text(value)),
                Err(message) => Err(chain::ChainFault::Evaluation(message)),
            }
        }
}

fn middleware_configs_of(engine: &mut regorus::Engine) -> (r: Result<
    Vec<RegoValue>,
    MiddlewareChainError,
>)
    ensures
        evaluation::engine_rules(*final(engine)) == evaluation::engine_rules(*old(engine)),
        evaluation::engine_data(*final(engine)) == evaluation::engine_data(*old(engine)),
        evaluation::engine_input(*final(engine)) == evaluation::engine_input(*old(engine)),
        may_configure(
            evaluation::engine_rules(*old(engine)),
            evaluation::engine_data(*old(engine)),
            evaluation::engine_input(*old(engine)),
            chain::configs_outcome(r),
        ),
{
    match eval_rule(engine, "data.openshell.sandbox.network_middlewares") {
        Ok(evaluated) => parse_middleware_configs(&evaluated.value, evaluated.debug.as_str()),
        Err(message) => Err(MiddlewareChainError::Evaluation(message)),
    }
}

impl TunnelPolicyEngine {
    /// The captured generation.
    pub fn captured_generation(&self) -> (r: u64)
        ensures
            r == self@.captured,
    {
        self.generation_guard.captured_generation()
    }

    /// Whether the generation that is current is another one.
    pub fn is_stale(&self, current_generation: u64) -> (r: bool)
        ensures
            r == (current_generation != self@.captured),
    {
        self.generation_guard.is_stale(current_generation)
    }

    /// The guard of the captured generation.
    pub fn generation_guard(&self) -> (r: PolicyGenerationGuard)
        ensures
            r.captured == self@.captured,
    {
        self.generation_guard
    }

    /// Evaluates a rule against the rules and data of the tunnel and an input
    /// document. Where the document cannot be an input, nothing changes.
    pub fn evaluate_rule(&mut self, input: &JsonValue, rule: &str) -> (r: Result<
        RegoValue,
        String,
    >)
        ensures
            tunnel_answers(old(self)@, final(self)@, input@, rule@, value_outcome(r)),
    {
        if let Err(message) = set_regorus_input(&mut self.engine, input) {
            return Err(message);
        }
        match eval_rule(&mut self.engine, rule) {
            Ok(evaluated) => Ok(evaluated.value),
            Err(message) => Err(message),
        }
    }

    /// Queries the middleware configurations, each with its name.
    pub fn query_middleware_configs(&mut self) -> (r: Result<Vec<RegoValue>, MiddlewareChainError>)
        ensures
            final(self)@ == old(self)@,
            may_configure(
                old(self)@.rules,
                old(self)@.data,
                old(self)@.input,
                chain::configs_outcome(r),
            ),
    {
        middleware_configs_of(&mut self.engine)
    }
}

fn compile(path: &str, rules: &str) -> (r: Result<regorus::Engine, String>)
    ensures
        r is Ok <==> evaluation::rules_load(path@, rules@),
        r matches Err(message) ==> message@ == "failed to load Rego policy"@,
        r matches Ok(engine) ==> {
            &&& evaluation::engine_rules(engine) == seq![(path@, rules@)]
            &&& evaluation::engine_data(engine) == Seq::<Seq<char>>::empty()
            &&& evaluation::engine_input(engine) == Seq::<Json>::empty()
        },
{
    let mut engine = new_engine();
    match add_rules(&mut engine, path, rules) {
        Ok(_) => {
            assert(evaluation::engine_rules(engine) == seq![(path@, rules@)]);
            Ok(engine)
        },
        Err(_) => Err("failed to load Rego policy".to_string()),
    }
}

impl OpaEngine {
    fn with_engine(engine: regorus::Engine, binary_identity_required: bool) -> (r: OpaEngine)
        ensures
            r@ == (EngineView {
                rules: evaluation::engine_rules(engine),
                data: evaluation::engine_data(engine),
                input: evaluation::engine_input(engine),
                binary_identity_required,
                generation: 0,
                quarantine: None,
            }),
    {
        OpaEngine { engine, binary_identity_required, generation: 0, fail_closed_reason: None }
    }

    /// Makes an engine of a rule file and prepared data.
    pub fn load(
        path: &str,
        rules: &str,
        data: &PreparedData,
        turn: RulesTurn,
        binary_identity_required: bool,
    ) -> (r: Result<OpaEngine, String>)
        ensures
            match r {
                Ok(engine) => data@ is Ready && load_fault(path@, rules@, data@, turn) is None
                    && engine@ == fresh(
                    path@,
                    rules@,
                    data@->Ready_0,
                    binary_identity_required,
                ),
                Err(message) => load_fault(path@, rules@, data@, turn) == Some(message@),
            },
    {
        if turn == RulesTurn::Last {
            match data {
                PreparedData::Undecoded(message) => {
                    return Err(message.clone());
                },
                PreparedData::Rejected(message) => {
                    return Err(message.clone());
                },
                PreparedData::Ready(_) => {},
            }
        }
        if turn == RulesTurn::Second {
            if let PreparedData::Undecoded(message) = data {
                return Err(message.clone());
            }
        }
        let mut engine = match compile(path, rules) {
            Ok(engine) => engine,
            Err(message) => {
                return Err(message);
            },
        };
        let document = match data {
            PreparedData::Undecoded(message) => {
                return Err(message.clone());
            },
            PreparedData::Rejected(message) => {
                return Err(message.clone());
            },
            PreparedData::Ready(document) => document,
        };
        match add_data(&mut engine, document.as_str()) {
            Ok(_) => {
                assert(evaluation::engine_data(engine) == seq![document@]);
                Ok(OpaEngine::with_engine(engine, binary_identity_required))
            },
            Err(_) => Err("failed to load OPA policy data".to_string()),
        }
    }

    /// Makes an engine of a rule file that was read from a path, and of data
    /// that was read from a file. Authorization rests on binary identity.
    pub fn from_files(path: &str, rules: &str, data: &PreparedData) -> (r: Result<OpaEngine, String>)
        ensures
            match r {
                Ok(engine) => data@ is Ready && load_fault(path@, rules@, data@, RulesTurn::Second)
                    is None && engine@ == fresh(path@, rules@, data@->Ready_0, true),
                Err(message) => load_fault(path@, rules@, data@, RulesTurn::Second) == Some(
                    message@,
                ),
            },
    {
        OpaEngine::load(path, rules, data, RulesTurn::Second, true)
    }

    /// Makes an engine for a standalone proxy that cannot observe the calling
    /// process: authorization rests on the requested endpoint and the protocol
    /// rules.
    pub fn from_files_for_endpoint_only_proxy(path: &str, rules: &str, data: &PreparedData) -> (r:
        Result<OpaEngine, String>)
        ensures
            match r {
                Ok(engine) => data@ is Ready && load_fault(path@, rules@, data@, RulesTurn::Second)
                    is None && engine@ == fresh(path@, rules@, data@->Ready_0, false),
                Err(message) => load_fault(path@, rules@, data@, RulesTurn::Second) == Some(
                    message@,
                ),
            },
    {
        OpaEngine::load(path, rules, data, RulesTurn::Second, false)
    }

    /// Makes an engine of rules and of data that was read from a stream.
    pub fn from_reader(policy: &str, data: &PreparedData) -> (r: Result<OpaEngine, String>)
        ensures
            match r {
                Ok(engine) => data@ is Ready && load_fault(
                    "policy.rego"@,
                    policy@,
                    data@,
                    RulesTurn::Second,
                ) is None && engine@ == fresh("policy.rego"@, policy@, data@->Ready_0, true),
                Err(message) => load_fault("policy.rego"@, policy@, data@, RulesTurn::Second)
                    == Some(message@),
            },
    {
        OpaEngine::load("policy.rego", policy, data, RulesTurn::Second, true)
    }

    /// Makes an engine of rules and of data that was given as text.
    pub fn from_strings(policy: &str, data: &PreparedData) -> (r: Result<OpaEngine, String>)
        ensures
            match r {
                Ok(engine) => data@ is Ready && load_fault(
                    "policy.rego"@,
                    policy@,
                    data@,
                    RulesTurn::First,
                ) is None && engine@ == fresh("policy.rego"@, policy@, data@->Ready_0, true),
                Err(message) => load_fault("policy.rego"@, policy@, data@, RulesTurn::First)
                    == Some(message@),
            },
    {
        OpaEngine::load("policy.rego", policy, data, RulesTurn::First, true)
    }

    /// Makes an engine of the built-in rules and of the data of a typed policy.
    pub fn from_proto(baked_rules: &str, data: &PreparedData) -> (r: Result<OpaEngine, String>)
        ensures
            match r {
                Ok(engine) => data@ is Ready && load_fault(
                    "policy.rego"@,
                    baked_rules@,
                    data@,
                    RulesTurn::Last,
                ) is None && engine@ == fresh("policy.rego"@, baked_rules@, data@->Ready_0, true),
                Err(message) => load_fault("policy.rego"@, baked_rules@, data@, RulesTurn::Last)
                    == Some(message@),
            },
    {
        OpaEngine::load("policy.rego", baked_rules, data, RulesTurn::Last, true)
    }

    /// Whether authorization requires a binary identity.
    pub fn binary_identity_required(&self) -> (r: bool)
        ensures
            r == self@.binary_identity_required,
    {
        self.binary_identity_required
    }

    /// The current generation. Every reload and every quarantine brings a new
    /// one.
    pub fn current_generation(&self) -> (r: u64)
        ensures
            r == self@.generation,
    {
        self.generation
    }

    fn advance_generation(&mut self) -> (r: u64)
        ensures
            r == next_generation(old(self)@.generation),
            final(self)@ == (EngineView { generation: r, ..old(self)@ }),
    {
        self.generation = self.generation.wrapping_add(1);
        self.generation
    }

    /// The reason of the quarantine, if there is one.
    pub fn fail_closed_reason(&self) -> (r: Option<String>)
        ensures
            rego::optional_text(r) == self@.quarantine,
    {
        match &self.fail_closed_reason {
            Some(reason) => Some(reason.clone()),
            None => None,
        }
    }

    /// Publishes a generation that denies everything for a reason. Rules and
    /// data stay, for an explicit return to them or for a later reload.
    pub fn enter_fail_closed(&mut self, reason: &str) -> (r: u64)
        ensures
            final(self)@ == quarantined(old(self)@, reason@),
            r == final(self)@.generation,
    {
        self.fail_closed_reason = Some(reason.to_string());
        self.advance_generation()
    }

    /// Returns to the rules and data that are there. Without a quarantine
    /// nothing changes.
    pub fn exit_fail_closed(&mut self) -> (r: u64)
        ensures
            final(self)@ == released(old(self)@),
            r == final(self)@.generation,
    {
        if self.fail_closed_reason.is_some() {
            self.fail_closed_reason = None;
            self.advance_generation()
        } else {
            self.generation
        }
    }

    /// Publishes a generation for a middleware registry that was replaced.
    pub fn replace_middleware_registry(&mut self) -> (r: u64)
        ensures
            r == next_generation(old(self)@.generation),
            final(self)@ == (EngineView { generation: r, ..old(self)@ }),
    {
        self.advance_generation()
    }

    fn replace(&mut self, new: OpaEngine)
        ensures
            final(self)@ == reloaded(old(self)@, new@),
    {
        self.engine = new.engine;
        self.fail_closed_reason = None;
        let _generation = self.advance_generation();
    }

    /// Replaces rules and data. The identity requirement belongs to the
    /// runtime and stays. Where the new ones do not load, nothing changes.
    pub fn reload(&mut self, policy: &str, data: &PreparedData) -> (r: Result<(), String>)
        ensures
            match r {
                Ok(_) => data@ is Ready && load_fault(
                    "policy.rego"@,
                    policy@,
                    data@,
                    RulesTurn::First,
                ) is None && final(self)@ == reloaded(
                    old(self)@,
                    fresh("policy.rego"@, policy@, data@->Ready_0, true),
                ),
                Err(message) => load_fault("policy.rego"@, policy@, data@, RulesTurn::First)
                    == Some(message@) && final(self)@ == old(self)@,
            },
    {
        let required = self.binary_identity_required;
        match OpaEngine::load("policy.rego", policy, data, RulesTurn::First, required) {
            Ok(new) => {
                self.replace(new);
                Ok(())
            },
            Err(message) => Err(message),
        }
    }

    /// Replaces rules and data by the built-in rules and the data of a typed
    /// policy. Where they do not load, nothing changes.
    pub fn reload_from_proto(&mut self, baked_rules: &str, data: &PreparedData) -> (r: Result<
        (),
        String,
    >)
        ensures
            match r {
                Ok(_) => data@ is Ready && load_fault(
                    "policy.rego"@,
                    baked_rules@,
                    data@,
                    RulesTurn::Last,
                ) is None && final(self)@ == reloaded(
                    old(self)@,
                    fresh("policy.rego"@, baked_rules@, data@->Ready_0, true),
                ),
                Err(message) => load_fault("policy.rego"@, baked_rules@, data@, RulesTurn::Last)
                    == Some(message@) && final(self)@ == old(self)@,
            },
    {
        let required = self.binary_identity_required;
        match OpaEngine::load("policy.rego", baked_rules, data, RulesTurn::Last, required) {
            Ok(new) => {
                self.replace(new);
                Ok(())
            },
            Err(message) => Err(message),
        }
    }

    /// The current generation, where it is the expected one.
    pub fn with_current_generation(&self, expected_generation: u64) -> (r: Option<u64>)
        ensures
            r == if self@.generation == expected_generation {
                Some(expected_generation)
            } else {
                None
            },
    {
        if self.generation == expected_generation {
            Some(self.generation)
        } else {
            None
        }
    }

    /// A guard for the current generation, where it is the expected one.
    pub fn generation_guard(&self, expected_generation: u64) -> (r: Result<
        PolicyGenerationGuard,
        String,
    >)
        ensures
            match r {
                Ok(guard) => self@.generation == expected_generation && guard.captured
                    == expected_generation,
                Err(message) => self@.generation != expected_generation && message@
                    == "policy changed before HTTP relay started [expected_generation:"@
                    + numeral::numeral(expected_generation as nat, Base::Decimal)
                    + " current_generation:"@ + numeral::numeral(
                    self@.generation as nat,
                    Base::Decimal,
                ) + "]"@,
            },
    {
        if self.generation != expected_generation {
            return Err(
                two_generations(
                    "policy changed before HTTP relay started [expected_generation:",
                    expected_generation,
                    self.generation,
                ),
            );
        }
        Ok(PolicyGenerationGuard { captured: self.generation })
    }

    /// An engine for a tunnel of the current generation, where it is the
    /// expected one.
    pub fn clone_engine_for_tunnel(&self, expected_generation: u64) -> (r: Result<
        TunnelPolicyEngine,
        String,
    >)
        ensures
            match r {
                Ok(tunnel) => self@.generation == expected_generation && tunnel@ == (TunnelView {
                    rules: self@.rules,
                    data: self@.data,
                    input: self@.input,
                    captured: expected_generation,
                }),
                Err(message) => self@.generation != expected_generation && message@
                    == "policy changed before L7 tunnel started [expected_generation:"@
                    + numeral::numeral(expected_generation as nat, Base::Decimal)
                    + " current_generation:"@ + numeral::numeral(
                    self@.generation as nat,
                    Base::Decimal,
                ) + "]"@,
            },
    {
        if self.generation != expected_generation {
            return Err(
                two_generations(
                    "policy changed before L7 tunnel started [expected_generation:",
                    expected_generation,
                    self.generation,
                ),
            );
        }
        Ok(
            TunnelPolicyEngine {
                engine: clone_engine(&self.engine),
                generation_guard: PolicyGenerationGuard { captured: self.generation },
            },
        )
    }

    fn evaluate(&mut self, rule: &str) -> (r: Result<Evaluated, String>)
        ensures
            final(self)@ == old(self)@,
            gives(old(self)@, rule@, evaluation::outcome_of(r)),
            r matches Ok(evaluated) ==> evaluation::displayed_of(evaluated)
                == evaluation::displayed_text(evaluated.value@),
    {
        eval_rule(&mut self.engine, rule)
    }

    fn ask(&mut self, input: &NetworkInput, rule: &str) -> (r: Result<Evaluated, String>)
        ensures
            answers(
                old(self)@,
                final(self)@,
                decisions::input_document(*input),
                rule@,
                evaluation::outcome_of(r),
            ),
    {
        let document = network_input_json(input);
        match set_regorus_input(&mut self.engine, &document) {
            Ok(_) => self.evaluate(rule),
            Err(message) => Err(message),
        }
    }

    /// Evaluates a network access request and gives the decision, its reason
    /// and the policy that matched.
    pub fn evaluate_network(&mut self, input: &NetworkInput) -> (r: Result<PolicyDecision, String>)
        ensures
            match old(self)@.quarantine {
                Some(reason) => final(self)@ == old(self)@ && decision_outcome(r) == Ok::<
                    decisions::Decision,
                    Seq<char>,
                >(decisions::Decision { allowed: false, reason, matched_policy: None }),
                None => match evaluation::input_fault(decisions::input_document(*input)) {
                    Some(detail) => final(self)@ == old(self)@ && decision_outcome(r) == Err::<
                        decisions::Decision,
                        Seq<char>,
                    >(detail),
                    None => final(self)@ == asked(
                        old(self)@,
                        decisions::input_document(*input),
                    ) && may_decide(final(self)@, decision_outcome(r)),
                },
            },
    {
        if let Some(reason) = &self.fail_closed_reason {
            return Ok(
                PolicyDecision { allowed: false, reason: reason.clone(), matched_policy: None },
            );
        }
        let document = network_input_json(input);
        if let Err(message) = set_regorus_input(&mut self.engine, &document) {
            return Err(message);
        }
        let allowed = match self.evaluate("data.openshell.sandbox.allow_network") {
            Ok(evaluated) => evaluated,
            Err(message) => {
                return Err(message);
            },
        };
        assert(gives(self@, "data.openshell.sandbox.allow_network"@, Ok(allowed.value@)));
        let reason = match self.evaluate("data.openshell.sandbox.deny_reason") {
            Ok(evaluated) => evaluated,
            Err(message) => {
                return Err(message);
            },
        };
        assert(gives(self@, "data.openshell.sandbox.deny_reason"@, Ok(reason.value@)));
        let matched = match self.evaluate("data.openshell.sandbox.matched_network_policy") {
            Ok(evaluated) => evaluated,
            Err(message) => {
                return Err(message);
            },
        };
        assert(gives(self@, "data.openshell.sandbox.matched_network_policy"@, Ok(matched.value@)));
        match decide_network(&allowed, &reason, &matched) {
            Some(decision) => Ok(decision),
            None => Err("policy result has no JSON text".to_string()),
        }
    }

    /// Authorizes egress, and gives all connection metadata of one result of
    /// one generation.
    pub fn authorize_egress(&mut self, input: &NetworkInput) -> (r: Result<
        EgressAuthorization,
        String,
    >)
        ensures
            match old(self)@.quarantine {
                Some(reason) => final(self)@ == old(self)@ && authorization_outcome(r) == Ok::<
                    decisions::Authorization,
                    Seq<char>,
                >(decisions::quarantine_authorization(reason, old(self)@.generation)),
                None => exists|result: Result<Rego, Seq<char>>|
                    #[trigger] answers(
                        old(self)@,
                        final(self)@,
                        decisions::input_document(*input),
                        "data.openshell.sandbox.egress_authorization"@,
                        result,
                    ) && authorization_outcome(r) == authorized(result, old(self)@.generation),
            },
    {
        if let Some(reason) = &self.fail_closed_reason {
            return Ok(deny_quarantined(reason.as_str(), self.generation));
        }
        let generation = self.generation;
        match self.ask(input, "data.openshell.sandbox.egress_authorization") {
            Ok(evaluated) => Ok(authorize(&evaluated.value, generation)),
            Err(message) => Err(message),
        }
    }

    /// Evaluates a network access request and gives the routing action with
    /// the generation that it belongs to.
    pub fn evaluate_network_action_with_generation(&mut self, input: &NetworkInput) -> (r: Result<
        (NetworkAction, u64),
        String,
    >)
        ensures
            match old(self)@.quarantine {
                Some(reason) => {
                    &&& final(self)@ == old(self)@
                    &&& r matches Ok(pair)
                    &&& pair.0@ == decisions::ActionModel::Deny(reason)
                    &&& pair.1 == old(self)@.generation
                },
                None => exists|result: Result<Rego, Seq<char>>|
                    #[trigger] answers(
                        old(self)@,
                        final(self)@,
                        decisions::input_document(*input),
                        "data.openshell.sandbox.egress_authorization"@,
                        result,
                    ) && match r {
                        Ok((action, generation)) => result matches Ok(value) && action@
                            == decisions::action_of(value) && generation == old(self)@.generation,
                        Err(message) => result == Err::<Rego, Seq<char>>(message@),
                    },
            },
    {
        match self.authorize_egress(input) {
            Ok(authorization) => Ok((authorization.action, authorization.generation)),
            Err(message) => Err(message),
        }
    }

    /// Evaluates a network access request and gives the routing action.
    pub fn evaluate_network_action(&mut self, input: &NetworkInput) -> (r: Result<
        NetworkAction,
        String,
    >)
        ensures
            match old(self)@.quarantine {
                Some(reason) => {
                    &&& final(self)@ == old(self)@
                    &&& r matches Ok(action)
                    &&& action@ == decisions::ActionModel::Deny(reason)
                },
                None => exists|result: Result<Rego, Seq<char>>|
                    #[trigger] answers(
                        old(self)@,
                        final(self)@,
                        decisions::input_document(*input),
                        "data.openshell.sandbox.egress_authorization"@,
                        result,
                    ) && match r {
                        Ok(action) => result matches Ok(value) && action@ == decisions::action_of(
                            value,
                        ),
                        Err(message) => result == Err::<Rego, Seq<char>>(message@),
                    },
            },
    {
        match self.evaluate_network_action_with_generation(input) {
            Ok((action, _)) => Ok(action),
            Err(message) => Err(message),
        }
    }

    /// Lists all explicit TCP endpoints that are eligible for policy DNS. A
    /// quarantine has none.
    pub fn policy_dns_eligibility_snapshot(&mut self) -> (r: Result<
        PolicyDnsEligibilitySnapshot,
        String,
    >)
        ensures
            final(self)@ == old(self)@,
            match old(self)@.quarantine {
                Some(_) => r matches Ok(snapshot) && snapshot.endpoints@.len() == 0
                    && snapshot.generation == old(self)@.generation,
                None => exists|result: Result<Rego, Seq<char>>|
                    #[trigger] gives(
                        old(self)@,
                        "data.openshell.sandbox.policy_dns_eligible_endpoint_records"@,
                        result,
                    ) && match r {
                        Ok(snapshot) => result matches Ok(value) && decisions::endpoints(
                            snapshot.endpoints@,
                        ) == decisions::recorded_endpoints(decisions::records(value))
                            && snapshot.generation == old(self)@.generation,
                        Err(message) => result == Err::<Rego, Seq<char>>(message@),
                    },
            },
    {
        if self.fail_closed_reason.is_some() {
            let none: Vec<MatchedEndpoint> = Vec::new();
            return Ok(
                PolicyDnsEligibilitySnapshot { endpoints: none, generation: self.generation },
            );
        }
        match self.evaluate("data.openshell.sandbox.policy_dns_eligible_endpoint_records") {
            Ok(evaluated) => Ok(
                PolicyDnsEligibilitySnapshot {
                    endpoints: dns_endpoints(&evaluated.value),
                    generation: self.generation,
                },
            ),
            Err(message) => Err(message),
        }
    }

    /// Queries the static sandbox configuration.
    pub fn query_sandbox_config(&mut self) -> (r: Result<SandboxConfig, String>)
        ensures
            final(self)@ == old(self)@,
            match r {
                Ok(config) => exists|a: Rego, b: Rego, c: Rego|
                    {
                        &&& #[trigger] gives(
                            old(self)@,
                            "data.openshell.sandbox.filesystem_policy"@,
                            Ok(a),
                        )
                        &&& #[trigger] gives(
                            old(self)@,
                            "data.openshell.sandbox.landlock_policy"@,
                            Ok(b),
                        )
                        &&& #[trigger] gives(
                            old(self)@,
                            "data.openshell.sandbox.process_policy"@,
                            Ok(c),
                        )
                        &&& config@ == decisions::config_of(a, b, c)
                    },
                Err(message) => {
                    ||| gives(
                        old(self)@,
                        "data.openshell.sandbox.filesystem_policy"@,
                        Err(message@),
                    )
                    ||| may_succeed(old(self)@, "data.openshell.sandbox.filesystem_policy"@)
                        && gives(
                        old(self)@,
                        "data.openshell.sandbox.landlock_policy"@,
                        Err(message@),
                    )
                    ||| may_succeed(old(self)@, "data.openshell.sandbox.filesystem_policy"@)
                        && may_succeed(old(self)@, "data.openshell.sandbox.landlock_policy"@)
                        && gives(old(self)@, "data.openshell.sandbox.process_policy"@, Err(message@))
                },
            },
    {
        let filesystem = match self.evaluate("data.openshell.sandbox.filesystem_policy") {
            Ok(evaluated) => evaluated,
            Err(message) => {
                return Err(message);
            },
        };
        assert(gives(self@, "data.openshell.sandbox.filesystem_policy"@, Ok(filesystem.value@)));
        let landlock = match self.evaluate("data.openshell.sandbox.landlock_policy") {
            Ok(evaluated) => evaluated,
            Err(message) => {
                return Err(message);
            },
        };
        assert(gives(self@, "data.openshell.sandbox.landlock_policy"@, Ok(landlock.value@)));
        let process = match self.evaluate("data.openshell.sandbox.process_policy") {
            Ok(evaluated) => evaluated,
            Err(message) => {
                return Err(message);
            },
        };
        assert(gives(self@, "data.openshell.sandbox.process_policy"@, Ok(process.value@)));
        Ok(sandbox_config(&filesystem.value, &landlock.value, &process.value))
    }

    /// Queries all endpoint configurations that match a request.
    pub fn query_endpoint_configs_with_generation(&mut self, input: &NetworkInput) -> (r: Result<
        (Vec<RegoValue>, u64),
        String,
    >)
        ensures
            exists|result: Result<Rego, Seq<char>>|
                #[trigger] answers(
                    old(self)@,
                    final(self)@,
                    decisions::input_document(*input),
                    "data.openshell.sandbox._matching_endpoint_configs"@,
                    result,
                ) && records_outcome(r) == recorded(result, old(self)@.generation),
    {
        let generation = self.generation;
        match self.ask(input, "data.openshell.sandbox._matching_endpoint_configs") {
            Ok(evaluated) => Ok((records_of(&evaluated.value), generation)),
            Err(message) => Err(message),
        }
    }

    /// Queries the first endpoint configuration that matches a request.
    pub fn query_endpoint_config_with_generation(&mut self, input: &NetworkInput) -> (r: Result<
        (Option<RegoValue>, u64),
        String,
    >)
        ensures
            exists|result: Result<Rego, Seq<char>>|
                #[trigger] answers(
                    old(self)@,
                    final(self)@,
                    decisions::input_document(*input),
                    "data.openshell.sandbox._matching_endpoint_configs"@,
                    result,
                ) && match r {
                    Ok((config, generation)) => result matches Ok(value) && config_model(config)
                        == first_record(value) && generation == old(self)@.generation,
                    Err(message) => result == Err::<Rego, Seq<char>>(message@),
                },
    {
        match self.query_endpoint_configs_with_generation(input) {
            Ok((configs, generation)) => {
                assert(rego::values(configs@).len() == configs@.len());
                if configs.len() > 0 {
                    assert(rego::values(configs@)[0] == configs@[0]@);
                    Ok((Some(configs[0].copy()), generation))
                } else {
                    Ok((None, generation))
                }
            },
            Err(message) => Err(message),
        }
    }

    /// Queries the first endpoint configuration that matches a request.
    pub fn query_endpoint_config(&mut self, input: &NetworkInput) -> (r: Result<
        Option<RegoValue>,
        String,
    >)
        ensures
            exists|result: Result<Rego, Seq<char>>|
                #[trigger] answers(
                    old(self)@,
                    final(self)@,
                    decisions::input_document(*input),
                    "data.openshell.sandbox._matching_endpoint_configs"@,
                    result,
                ) && match r {
                    Ok(config) => result matches Ok(value) && config_model(config)
                        == first_record(value),
                    Err(message) => result == Err::<Rego, Seq<char>>(message@),
                },
    {
        match self.query_endpoint_config_with_generation(input) {
            Ok((config, _)) => Ok(config),
            Err(message) => Err(message),
        }
    }

    /// Queries the addresses that the first matching endpoint configuration
    /// allows. Without a match there are none.
    pub fn query_allowed_ips(&mut self, input: &NetworkInput) -> (r: Result<Vec<String>, String>)
        ensures
            exists|result: Result<Rego, Seq<char>>|
                #[trigger] answers(
                    old(self)@,
                    final(self)@,
                    decisions::input_document(*input),
                    "data.openshell.sandbox._matching_endpoint_configs"@,
                    result,
                ) && match r {
                    Ok(list) => result matches Ok(value) && text::texts(list@)
                        == allowed_addresses(value),
                    Err(message) => result == Err::<Rego, Seq<char>>(message@),
                },
    {
        match self.query_endpoint_config(input) {
            Ok(Some(config)) => Ok(get_str_array(&config, "allowed_ips")),
            Ok(None) => {
                let none: Vec<String> = Vec::new();
                assert(text::texts(none@) == Seq::<Seq<char>>::empty());
                Ok(none)
            },
            Err(message) => Err(message),
        }
    }

    /// Queries every endpoint that matches a request, those without extended
    /// configuration among them, for the gating of credentials.
    pub fn query_endpoint_credential_guards(&mut self, input: &NetworkInput) -> (r: Result<
        Vec<RegoValue>,
        String,
    >)
        ensures
            exists|result: Result<Rego, Seq<char>>|
                #[trigger] answers(
                    old(self)@,
                    final(self)@,
                    decisions::input_document(*input),
                    "data.openshell.sandbox.endpoint_credential_guards"@,
                    result,
                ) && match r {
                    Ok(list) => result matches Ok(value) && rego::values(list@)
                        == decisions::records(value),
                    Err(message) => result == Err::<Rego, Seq<char>>(message@),
                },
    {
        match self.ask(input, "data.openshell.sandbox.endpoint_credential_guards") {
            Ok(evaluated) => Ok(records_of(&evaluated.value)),
            Err(message) => Err(message),
        }
    }

    /// Whether the endpoint that matches a request is an exactly declared
    /// hostname: neither a wildcard nor an endpoint without a host.
    pub fn query_exact_declared_endpoint_host(&mut self, input: &NetworkInput) -> (r: Result<
        bool,
        String,
    >)
        ensures
            exists|result: Result<Rego, Seq<char>>|
                #[trigger] answers(
                    old(self)@,
                    final(self)@,
                    decisions::input_document(*input),
                    "data.openshell.sandbox.exact_declared_endpoint_host"@,
                    result,
                ) && match r {
                    Ok(exact) => result matches Ok(value) && exact == (value == Rego::Bool(true)),
                    Err(message) => result == Err::<Rego, Seq<char>>(message@),
                },
    {
        match self.ask(input, "data.openshell.sandbox.exact_declared_endpoint_host") {
            Ok(evaluated) => match &evaluated.value {
                RegoValue::Bool(exact) => Ok(*exact),
                _ => Ok(false),
            },
            Err(message) => Err(message),
        }
    }

    /// Queries the middleware configurations, each with its name, and the
    /// generation that they belong to.
    pub fn query_middleware_configs_with_generation(&mut self) -> (r: (
        Result<Vec<RegoValue>, MiddlewareChainError>,
        u64,
    ))
        ensures
            final(self)@ == old(self)@,
            r.1 == old(self)@.generation,
            may_configure(
                old(self)@.rules,
                old(self)@.data,
                old(self)@.input,
                chain::configs_outcome(r.0),
            ),
    {
        let configs = middleware_configs_of(&mut self.engine);
        (configs, self.generation)
    }
}

/// What a configuration that may be absent denotes.
pub open spec fn config_model(config: Option<RegoValue>) -> Option<Rego> {
    match config {
        Some(value) => Some(value@),
        None => None,
    }
}

/// The first record that a result gives, if there is one.
pub open spec fn first_record(value: Rego) -> Option<Rego> {
    let list = decisions::records(value);
    if list.len() > 0 {
        Some(list[0])
    } else {
        None
    }
}

/// The addresses that the first record of a result allows.
pub open spec fn allowed_addresses(value: Rego) -> Seq<Seq<char>> {
    match first_record(value) {
        Some(config) => rego::text_list(config, "allowed_ips"@),
        None => seq![],
    }
}

/// A generation is never followed by itself, so that a guard is stale as soon
/// as a new generation is published.
pub proof fn new_generation_is_another(generation: u64)
    ensures
        next_generation(generation) != generation,
{
}

/// Entering a quarantine and leaving it again keeps rules and data. Guards of
/// the generation before the quarantine are stale during it and stay stale
/// after it.
pub proof fn quarantine_keeps_policy(engine: EngineView, reason: Seq<char>)
    requires
        engine.quarantine is None,
    ensures
        ({
            let during = quarantined(engine, reason);
            let after = released(during);
            &&& during.generation != engine.generation
            &&& after.generation != during.generation
            &&& after.generation != engine.generation
            &&& after == (EngineView { generation: after.generation, ..engine })
        }),
{
}

/// A reload ends a quarantine, keeps the identity requirement, and makes every
/// guard of the generation before it stale.
pub proof fn reload_ends_quarantine(old_engine: EngineView, new_engine: EngineView)
    ensures
        reloaded(old_engine, new_engine).quarantine is None,
        reloaded(old_engine, new_engine).binary_identity_required
            == old_engine.binary_identity_required,
        reloaded(old_engine, new_engine).generation != old_engine.generation,
        reloaded(old_engine, new_engine).rules == new_engine.rules,
        reloaded(old_engine, new_engine).data == new_engine.data,
{
}

/// Whatever the authorization rule gives, egress is allowed only where it says
/// so, and a denial always has a reason.
pub proof fn only_allow_allows(value: Rego, generation: u64)
    ensures
        decisions::authorization(value, generation).action is Allow <==> rego::text_field(
            value,
            "action"@,
        ) == Some("allow"@),
        decisions::authorization(value, generation).action matches decisions::ActionModel::Deny(
            reason,
        ) ==> reason.len() > 0,
{
    reveal_strlit("network connections not allowed by policy");
}

} // verus!
