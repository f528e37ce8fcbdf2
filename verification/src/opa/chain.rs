//! Selection of the middleware chain for a destination.

use crate::numeral;
use crate::numeral::{numeral_of, Base};
use crate::opa::rego;
use crate::opa::rego::{get_field, get_str, get_str_array, set_field, Rego, RegoValue};
use crate::opa::struct_value;
use crate::opa::struct_value::{regorus_value_to_struct, StructModel, StructValue};
use crate::text;
use vstd::prelude::*;

verus! {

/// The key under which a middleware configuration keeps the name it has in
/// policy.
pub open spec fn policy_key() -> Seq<char> {
    "__openshell_policy_key"@
}

/// Why no middleware chain could be made.
#[derive(Debug)]
pub enum MiddlewareChainError {
    /// The evaluation of a rule failed.
    Evaluation(String),
    /// A configuration has a key that is no text.
    KeyNotText,
    /// A configuration is no object. The name is given for debugging.
    ConfigNotObject(String),
    /// The configurations are no object. They are given for debugging.
    ConfigsNotObject(String),
    /// A host selector is malformed.
    Selector(String),
    /// More stages were selected than a chain may have.
    TooManyStages(usize),
    /// What to do on an error is not understood.
    OnError(String),
}

/// What a [`MiddlewareChainError`] denotes.
#[verifier::ext_equal]
pub enum ChainFault {
    Evaluation(Seq<char>),
    KeyNotText,
    ConfigNotObject(Seq<char>),
    ConfigsNotObject(Seq<char>),
    Selector(Seq<char>),
    TooManyStages(int),
    OnError(Seq<char>),
}

impl View for MiddlewareChainError {
    type V = ChainFault;

    open spec fn view(&self) -> ChainFault {
        match self {
            MiddlewareChainError::Evaluation(detail) => ChainFault::Evaluation(detail@),
            MiddlewareChainError::KeyNotText => ChainFault::KeyNotText,
            MiddlewareChainError::ConfigNotObject(name) => ChainFault::ConfigNotObject(name@),
            MiddlewareChainError::ConfigsNotObject(shown) => ChainFault::ConfigsNotObject(shown@),
            MiddlewareChainError::Selector(detail) => ChainFault::Selector(detail@),
            MiddlewareChainError::TooManyStages(limit) => ChainFault::TooManyStages(*limit as int),
            MiddlewareChainError::OnError(detail) => ChainFault::OnError(detail@),
        }
    }
}

/// The message of a fault.
pub open spec fn fault_message(fault: ChainFault) -> Seq<char> {
    match fault {
        ChainFault::Evaluation(detail) => detail,
        ChainFault::KeyNotText => "network_middlewares keys must be strings"@,
        ChainFault::ConfigNotObject(name) => "network middleware config "@ + name
            + " must be an object"@,
        ChainFault::ConfigsNotObject(shown) => "network_middlewares must be an object, got "@
            + shown,
        ChainFault::Selector(detail) => detail,
        ChainFault::TooManyStages(limit) =>
        "selected middleware stage count exceeds platform maximum "@ + numeral::numeral(
            limit as nat,
            Base::Decimal,
        ),
        ChainFault::OnError(detail) => detail,
    }
}

impl MiddlewareChainError {
    /// The message of the error.
    pub fn message(&self) -> (r: String)
        ensures
            r@ == fault_message(self@),
    {
        match self {
            MiddlewareChainError::Evaluation(detail) => detail.clone(),
            MiddlewareChainError::KeyNotText => {
                "network_middlewares keys must be strings".to_string()
            },
            MiddlewareChainError::ConfigNotObject(name) => {
                let mut r = "network middleware config ".to_string();
                r.append(name.as_str());
                r.append(" must be an object");
                r
            },
            MiddlewareChainError::ConfigsNotObject(shown) => {
                let mut r = "network_middlewares must be an object, got ".to_string();
                r.append(shown.as_str());
                r
            },
            MiddlewareChainError::Selector(detail) => detail.clone(),
            MiddlewareChainError::TooManyStages(limit) => {
                let mut r = "selected middleware stage count exceeds platform maximum ".to_string();
                r.append(numeral_of(*limit as u64, Base::Decimal).as_str());
                r
            },
            MiddlewareChainError::OnError(detail) => detail.clone(),
        }
    }
}

/// The text in which std prints a text for debugging.
pub uninterp spec fn quoted_text(s: Seq<char>) -> Seq<char>;

/// `Debug` of `str` quotes a text, and escapes what does not print.
#[verifier::external_body]
fn quoted(s: &str) -> (r: String)
    ensures
        r@ == quoted_text(s@),
{
    format!("{s:?}")
}

/// The name of a configuration as it is shown for debugging.
pub open spec fn shown_name(name: Seq<char>) -> Seq<char> {
    "String("@ + quoted_text(name) + ")"@
}

/// The configurations among the first `n` entries, each with its name, or the
/// first fault among them.
pub open spec fn named_configs(configs: Seq<(Rego, Rego)>, n: int) -> Result<Seq<Rego>, ChainFault>
    decreases n,
{
    if n <= 0 || n > configs.len() {
        Ok(seq![])
    } else {
        match named_configs(configs, n - 1) {
            Err(fault) => Err(fault),
            Ok(before) => match configs[n - 1] {
                (Rego::Text(name), Rego::Object(fields)) => Ok(
                    before.push(
                        Rego::Object(rego::with_entry(fields, policy_key(), Rego::Text(name))),
                    ),
                ),
                (Rego::Text(name), _) => Err(ChainFault::ConfigNotObject(shown_name(name))),
                _ => Err(ChainFault::KeyNotText),
            },
        }
    }
}

/// The middleware configurations that a result stands for.
pub open spec fn middleware_configs(value: Rego, debug: Seq<char>) -> Result<
    Seq<Rego>,
    ChainFault,
> {
    match value {
        Rego::Undefined => Ok(seq![]),
        Rego::Object(configs) => named_configs(configs, configs.len() as int),
        _ => Err(ChainFault::ConfigsNotObject(debug)),
    }
}

/// What a list of configurations, or the failure to get it, denotes.
pub open spec fn configs_outcome(r: Result<Vec<RegoValue>, MiddlewareChainError>) -> Result<
    Seq<Rego>,
    ChainFault,
> {
    match r {
        Ok(list) => Ok(rego::values(list@)),
        Err(error) => Err(error@),
    }
}

proof fn lemma_named_configs_fault(configs: Seq<(Rego, Rego)>, i: int, n: int)
    requires
        0 <= i <= n <= configs.len(),
        named_configs(configs, i) is Err,
    ensures
        named_configs(configs, n) == named_configs(configs, i),
    decreases n - i,
{
    if i < n {
        lemma_named_configs_fault(configs, i, n - 1);
    }
}

/// Reads the middleware configurations from a result, each with the name that
/// it has in policy. `debug` is the result as it is shown for debugging.
#[verifier::loop_isolation(false)]
pub fn parse_middleware_configs(value: &RegoValue, debug: &str) -> (r: Result<
    Vec<RegoValue>,
    MiddlewareChainError,
>)
    ensures
        configs_outcome(r) == middleware_configs(value@, debug@),
{
    let mut found: Vec<RegoValue> = Vec::new();
    assert(rego::values(found@) == Seq::<Rego>::empty());
    let list = match value {
        RegoValue::Undefined => {
            return Ok(found);
        },
        RegoValue::Object(list) => list,
        _ => {
            return Err(MiddlewareChainError::ConfigsNotObject(debug.to_string()));
        },
    };
    proof {
        rego::object_view(*list);
    }
    let ghost all = rego::entries(list@);
    let mut i: usize = 0;
    while i < list.len()
        invariant
            i <= list@.len(),
            Ok::<Seq<Rego>, ChainFault>(rego::values(found@)) == named_configs(all, i as int),
        decreases list@.len() - i,
    {
        assert(all[i as int] == (list@[i as int].0@, list@[i as int].1@));
        let name = match &list[i].0 {
            RegoValue::Text(name) => name,
            _ => {
                proof {
                    lemma_named_configs_fault(all, i + 1, all.len() as int);
                }
                return Err(MiddlewareChainError::KeyNotText);
            },
        };
        let copied = list[i].1.copy();
        match copied {
            RegoValue::Object(fields) => {
                let mut fields = fields;
                proof {
                    rego::object_view(fields);
                }
                set_field(&mut fields, "__openshell_policy_key", RegoValue::Text(name.clone()));
                proof {
                    rego::object_view(fields);
                }
                let ghost before = rego::values(found@);
                let config = RegoValue::Object(fields);
                let ghost model = config@;
                found.push(config);
                assert(rego::values(found@) == before.push(model));
            },
            _ => {
                proof {
                    lemma_named_configs_fault(all, i + 1, all.len() as int);
                }
                let mut shown = "String(".to_string();
                shown.append(quoted(name.as_str()).as_str());
                shown.append(")");
                return Err(MiddlewareChainError::ConfigNotObject(shown));
            },
        }
        i += 1;
    }
    Ok(found)
}

/// Hosts that a configuration applies to.
#[derive(Debug)]
pub struct MiddlewareSelector {
    pub included: Vec<String>,
    pub excluded: Vec<String>,
}

/// What a [`MiddlewareSelector`] denotes: the patterns of both kinds.
pub open spec fn selector_patterns(selector: Option<MiddlewareSelector>) -> Option<
    (Seq<Seq<char>>, Seq<Seq<char>>),
> {
    match selector {
        Some(s) => Some((text::texts(s.included@), text::texts(s.excluded@))),
        None => None,
    }
}

/// The host patterns of a configuration, if it has any selector.
pub open spec fn patterns_of(config: Rego) -> Option<(Seq<Seq<char>>, Seq<Seq<char>>)> {
    match rego::field(config, "endpoints"@) {
        Some(selector) => Some(
            (rego::text_list(selector, "include"@), rego::text_list(selector, "exclude"@)),
        ),
        None => None,
    }
}

/// Reads the host patterns of a configuration. One without a selector applies
/// to no host.
pub fn middleware_selector(config: &RegoValue) -> (r: Option<MiddlewareSelector>)
    ensures
        selector_patterns(r) == patterns_of(config@),
{
    match get_field(config, "endpoints") {
        Some(selector) => Some(
            MiddlewareSelector {
                included: get_str_array(selector, "include"),
                excluded: get_str_array(selector, "exclude"),
            },
        ),
        None => None,
    }
}

/// One stage of a middleware chain.
#[derive(Debug)]
pub struct ChainEntry {
    pub name: String,
    pub implementation: String,
    pub order: i32,
    /// The fields of the configuration of the stage.
    pub config: Vec<(String, StructValue)>,
    pub on_error: String,
}

/// What a [`ChainEntry`] denotes.
#[verifier::ext_equal]
pub struct Stage {
    pub name: Seq<char>,
    pub implementation: Seq<char>,
    pub order: int,
    pub config: Seq<(Seq<char>, StructModel)>,
    pub on_error: Seq<char>,
}

impl View for ChainEntry {
    type V = Stage;

    open spec fn view(&self) -> Stage {
        Stage {
            name: self.name@,
            implementation: self.implementation@,
            order: self.order as int,
            config: struct_value::fields(self.config@),
            on_error: self.on_error@,
        }
    }
}

/// What a list of stages denotes.
pub open spec fn stages(list: Seq<ChainEntry>) -> Seq<Stage> {
    list.map_values(|entry: ChainEntry| entry@)
}

/// The text under a key, or an empty text.
pub open spec fn text_or_empty(value: Rego, key: Seq<char>) -> Seq<char> {
    match rego::text_field(value, key) {
        Some(s) => s,
        None => seq![],
    }
}

/// The order of a configuration: an integer in the range of `i32`, or zero.
pub open spec fn order_of(config: Rego) -> int {
    match rego::field(config, "order"@) {
        Some(Rego::Number(Some(order), _)) => if i32::MIN <= order <= i32::MAX {
            order as int
        } else {
            0
        },
        _ => 0,
    }
}

/// The stage that a configuration stands for.
pub open spec fn stage_of(config: Rego) -> Stage {
    Stage {
        name: text_or_empty(config, policy_key()),
        implementation: text_or_empty(config, "middleware"@),
        order: order_of(config),
        config: match rego::field(config, "config"@) {
            Some(value) => struct_value::struct_fields(value),
            None => seq![],
        },
        on_error: text_or_empty(config, "on_error"@),
    }
}

fn get_text_or_empty(value: &RegoValue, key: &str) -> (r: String)
    ensures
        r@ == text_or_empty(value@, key@),
{
    match get_str(value, key) {
        Some(s) => s,
        None => {
            let empty = String::new();
            assert(empty@ == Seq::<char>::empty());
            empty
        },
    }
}

/// Reads a stage from a configuration.
pub fn chain_entry_from_value(config: &RegoValue) -> (r: ChainEntry)
    ensures
        r@ == stage_of(config@),
{
    let order: i32 = match get_field(config, "order") {
        Some(RegoValue::Number(number)) => match number.integer {
            Some(order) => if i32::MIN as i64 <= order && order <= i32::MAX as i64 {
                order as i32
            } else {
                0
            },
            None => 0,
        },
        _ => 0,
    };
    ChainEntry {
        name: get_text_or_empty(config, "__openshell_policy_key"),
        implementation: get_text_or_empty(config, "middleware"),
        order,
        config: match get_field(config, "config") {
            Some(value) => regorus_value_to_struct(value),
            None => {
                let none: Vec<(String, StructValue)> = Vec::new();
                assert(struct_value::fields(none@) == Seq::<(Seq<char>, StructModel)>::empty());
                none
            },
        },
        on_error: get_text_or_empty(config, "on_error"),
    }
}

/// What the platform says of a configuration.
#[derive(Debug)]
pub struct Selection {
    /// Whether its host patterns match the destination, or why they are
    /// malformed. A configuration without patterns is not asked about.
    pub matches: Result<bool, String>,
    /// Why its setting for errors is malformed, if it is.
    pub on_error_fault: Option<String>,
}

/// The stages among the first `n` configurations that apply, or the first
/// fault among them.
pub open spec fn selected_stages(
    configs: Seq<Rego>,
    selections: Seq<Selection>,
    max_stages: int,
    n: int,
) -> Result<Seq<Stage>, ChainFault>
    decreases n,
{
    if n <= 0 || n > configs.len() || n > selections.len() {
        Ok(seq![])
    } else {
        match selected_stages(configs, selections, max_stages, n - 1) {
            Err(fault) => Err(fault),
            Ok(before) => if patterns_of(configs[n - 1]) is None {
                Ok(before)
            } else {
                match selections[n - 1].matches {
                    Err(detail) => Err(ChainFault::Selector(detail@)),
                    Ok(false) => Ok(before),
                    Ok(true) => if before.len() >= max_stages {
                        Err(ChainFault::TooManyStages(max_stages))
                    } else {
                        match selections[n - 1].on_error_fault {
                            Some(detail) => Err(ChainFault::OnError(detail@)),
                            None => Ok(before.push(stage_of(configs[n - 1]))),
                        }
                    },
                }
            },
        }
    }
}

/// What a chain, or the failure to make it, denotes.
pub open spec fn chain_outcome(r: Result<Vec<ChainEntry>, MiddlewareChainError>) -> Result<
    Seq<Stage>,
    ChainFault,
> {
    match r {
        Ok(list) => Ok(stages(list@)),
        Err(error) => Err(error@),
    }
}

proof fn lemma_selected_stages_fault(
    configs: Seq<Rego>,
    selections: Seq<Selection>,
    max_stages: int,
    i: int,
    n: int,
)
    requires
        0 <= i <= n <= configs.len(),
        n <= selections.len(),
        selected_stages(configs, selections, max_stages, i) is Err,
    ensures
        selected_stages(configs, selections, max_stages, n) == selected_stages(
            configs,
            selections,
            max_stages,
            i,
        ),
    decreases n - i,
{
    if i < n {
        lemma_selected_stages_fault(configs, selections, max_stages, i, n - 1);
    }
}

/// Selects the stages of the configurations that apply to a destination, in
/// the order of the configurations. `selections` holds what the platform says
/// of each configuration for the destination.
#[verifier::loop_isolation(false)]
pub fn global_middleware_entries(
    configs: &Vec<RegoValue>,
    selections: &Vec<Selection>,
    max_stages: usize,
) -> (r: Result<Vec<ChainEntry>, MiddlewareChainError>)
    requires
        selections@.len() == configs@.len(),
    ensures
        chain_outcome(r) == selected_stages(
            rego::values(configs@),
            selections@,
            max_stages as int,
            configs@.len() as int,
        ),
{
    let ghost all = rego::values(configs@);
    let ghost max = max_stages as int;
    let mut found: Vec<ChainEntry> = Vec::new();
    assert(stages(found@) == Seq::<Stage>::empty());
    let mut i: usize = 0;
    while i < configs.len()
        invariant
            i <= configs@.len(),
            stages(found@).len() == found@.len(),
            Ok::<Seq<Stage>, ChainFault>(stages(found@)) == selected_stages(
                all,
                selections@,
                max,
                i as int,
            ),
        decreases configs@.len() - i,
    {
        assert(all[i as int] == configs@[i as int]@);
        if middleware_selector(&configs[i]).is_some() {
            let selection = &selections[i];
            match &selection.matches {
                Err(detail) => {
                    proof {
                        lemma_selected_stages_fault(all, selections@, max, i + 1, all.len() as int);
                    }
                    return Err(MiddlewareChainError::Selector(detail.clone()));
                },
                Ok(applies) => if *applies {
                    if found.len() >= max_stages {
                        proof {
                            lemma_selected_stages_fault(
                                all,
                                selections@,
                                max,
                                i + 1,
                                all.len() as int,
                            );
                        }
                        return Err(MiddlewareChainError::TooManyStages(max_stages));
                    }
                    if let Some(detail) = &selection.on_error_fault {
                        proof {
                            lemma_selected_stages_fault(
                                all,
                                selections@,
                                max,
                                i + 1,
                                all.len() as int,
                            );
                        }
                        return Err(MiddlewareChainError::OnError(detail.clone()));
                    }
                    let ghost before = stages(found@);
                    let entry = chain_entry_from_value(&configs[i]);
                    let ghost model = entry@;
                    found.push(entry);
                    assert(stages(found@) == before.push(model));
                },
            }
        }
        i += 1;
    }
    Ok(found)
}

/// A chain never has more stages than the platform allows.
pub proof fn chain_keeps_to_stage_limit(
    configs: Seq<Rego>,
    selections: Seq<Selection>,
    max_stages: int,
    n: int,
)
    requires
        0 <= max_stages,
    ensures
        selected_stages(configs, selections, max_stages, n) matches Ok(list) ==> list.len()
            <= max_stages,
    decreases n,
{
    if 0 < n <= configs.len() && n <= selections.len() {
        chain_keeps_to_stage_limit(configs, selections, max_stages, n - 1);
    }
}

} // verus!
