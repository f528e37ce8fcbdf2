//! Loading of policy: what candidate data goes through before it is evaluated.
//!
//! Candidate data passes a fixed sequence of checks and normalizations. Some
//! of them are the policy schema's and the protocol validators'. The library
//! keeps the sequence: it says which check is due on which data, and takes the
//! outcome in.

use crate::json::{Json, JsonValue};
use crate::l7::json_text;
use crate::l7::json_text::json_text_of;
use crate::numeral;
use crate::numeral::{numeral_of, Base};
use crate::opa::aliases;
use crate::opa::aliases::{normalize_l7_config_aliases, ConfigStanza, Outcome};
use crate::opa::diagnostics;
use crate::opa::diagnostics::{
    render_repeated_validation_diagnostic, render_violations, PolicyViolation,
};
use crate::opa::document;
use crate::opa::document::proto_to_opa_data_json;
use crate::opa::engine::{DataModel, PreparedData};
use crate::opa::normalize;
use crate::opa::normalize::{
    inject_runtime_policy_data, normalize_endpoint_ports, normalize_endpoint_protocols,
    normalize_l7_policy_rule_aliases, EndpointPass,
};
use crate::opa::policy::SandboxPolicy;
use crate::opa::structure;
use crate::opa::structure::validate_opa_data_structure;
use crate::text;
use vstd::prelude::*;

verus! {

/// Where the loading of candidate data has come to.
#[derive(Debug)]
pub enum LoadState {
    /// The data is to be normalized by the policy schema.
    Schema(JsonValue),
    /// The configuration stanzas of the data are to be lowered.
    Stanzas(JsonValue),
    /// The middleware configuration of the data is to be validated.
    Middleware(JsonValue),
    /// The protocol rules of the data are to be validated.
    Rules(JsonValue),
    /// The access presets of the data are to be expanded.
    Presets(JsonValue),
    /// The data document is ready.
    Ready(String),
    /// The candidate is rejected.
    Rejected(String),
}

/// What a [`LoadState`] denotes.
#[verifier::ext_equal]
pub enum Stage {
    Schema(Json),
    Stanzas(Json),
    Middleware(Json),
    Rules(Json),
    Presets(Json),
    Ready(Seq<char>),
    Rejected(Seq<char>),
}

impl View for LoadState {
    type V = Stage;

    open spec fn view(&self) -> Stage {
        match self {
            LoadState::Schema(data) => Stage::Schema(data@),
            LoadState::Stanzas(data) => Stage::Stanzas(data@),
            LoadState::Middleware(data) => Stage::Middleware(data@),
            LoadState::Rules(data) => Stage::Rules(data@),
            LoadState::Presets(data) => Stage::Presets(data@),
            LoadState::Ready(document) => Stage::Ready(document@),
            LoadState::Rejected(message) => Stage::Rejected(message@),
        }
    }
}

/// The outcome of a check or normalization.
#[derive(Debug)]
pub enum LoadEvent {
    /// The normalized data, or why the schema rejects it.
    Schema(Result<JsonValue, String>),
    /// The stanzas, what lowering them gave by policy, endpoint and stanza,
    /// and what an empty MCP stanza lowers to.
    Stanzas(Vec<ConfigStanza>, Vec<Vec<Vec<Outcome>>>, Outcome),
    /// The violations, unless the middleware configuration could not be read.
    Middleware(Result<Vec<PolicyViolation>, ()>),
    /// The number of errors in protocol rules, and the warnings.
    Rules(usize, Vec<String>),
    /// The data with its presets expanded, and the warnings.
    Presets(JsonValue, Vec<String>),
}

/// What a [`LoadEvent`] denotes.
#[verifier::ext_equal]
pub enum Event {
    Schema(Result<Json, Seq<char>>),
    Stanzas(Seq<ConfigStanza>, Seq<Seq<Seq<aliases::Lowering>>>, aliases::Lowering),
    Middleware(Result<Seq<PolicyViolation>, ()>),
    Rules(nat, Seq<Seq<char>>),
    Presets(Json, Seq<Seq<char>>),
}

impl View for LoadEvent {
    type V = Event;

    open spec fn view(&self) -> Event {
        match self {
            LoadEvent::Schema(Ok(data)) => Event::Schema(Ok(data@)),
            LoadEvent::Schema(Err(detail)) => Event::Schema(Err(detail@)),
            LoadEvent::Stanzas(stanzas, table, mcp_default) => Event::Stanzas(
                stanzas@,
                aliases::lowering_table(table@),
                aliases::lowering(*mcp_default),
            ),
            LoadEvent::Middleware(Ok(violations)) => Event::Middleware(Ok(violations@)),
            LoadEvent::Middleware(Err(_)) => Event::Middleware(Err(())),
            LoadEvent::Rules(errors, warnings) => Event::Rules(
                *errors as nat,
                text::texts(warnings@),
            ),
            LoadEvent::Presets(data, warnings) => Event::Presets(data@, text::texts(warnings@)),
        }
    }
}

/// A category, once for each of a number of faults.
pub open spec fn repeated(count: nat, category: Seq<char>) -> Seq<Seq<char>> {
    Seq::new(count, |i: int| category)
}

/// The categories of violations.
pub open spec fn categories(violations: Seq<PolicyViolation>) -> Seq<Seq<char>> {
    violations.map_values(|violation: PolicyViolation| violation.category())
}

/// Warnings with what they are about.
pub open spec fn prefixed(prefix: Seq<char>, warnings: Seq<Seq<char>>) -> Seq<Seq<char>> {
    warnings.map_values(|warning: Seq<char>| prefix + ": "@ + warning)
}

/// What data that could be converted, or not, denotes.
pub open spec fn converted_data(data: Option<JsonValue>) -> Option<Json> {
    match data {
        Some(value) => Some(value@),
        None => None,
    }
}

/// Where the loading of raw data starts. It must be possible to write the data
/// as JSON, and containers that later steps would pass over must have their
/// shapes.
pub open spec fn raw_start(data: Option<Json>) -> Stage {
    match data {
        None => Stage::Rejected("failed to convert YAML policy data to JSON"@),
        Some(data) => match structure::structure_fault(data) {
            Some(fault) => Stage::Rejected(fault),
            None => Stage::Schema(data),
        },
    }
}

/// Data with the runtime's identity requirement and canonical protocol names.
pub open spec fn runtime_data(data: Json, require_binary_identity: bool) -> Json {
    normalize::data_passed(
        normalize::with_runtime(data, require_binary_identity),
        EndpointPass::Protocols,
    )
}

/// Where the loading of a typed policy starts, given the validated policy or
/// its violations, and the number of ambiguities among its endpoints.
pub open spec fn typed_start(
    validated: Result<SandboxPolicy, Vec<PolicyViolation>>,
    ambiguities: nat,
    require_binary_identity: bool,
) -> Stage {
    match validated {
        Err(violations) => Stage::Rejected(
            diagnostics::bounded("policy validation failed"@, categories(violations@)),
        ),
        Ok(policy) => if ambiguities > 0 {
            Stage::Rejected(
                diagnostics::bounded(
                    "network endpoint ambiguity validation failed"@,
                    repeated(ambiguities, "ambiguous network endpoint selectors"@),
                ),
            )
        } else {
            Stage::Rules(runtime_data(document::policy_data(policy), require_binary_identity))
        },
    }
}

/// Where an event takes the loading, and the warnings that it brings. An event
/// that is not due changes nothing.
pub open spec fn advanced(stage: Stage, event: Event, require_binary_identity: bool) -> (
    Stage,
    Seq<Seq<char>>,
) {
    match (stage, event) {
        (Stage::Schema(_), Event::Schema(Err(detail))) => (
            Stage::Rejected("OPA policy schema validation failed: "@ + detail),
            seq![],
        ),
        (Stage::Schema(_), Event::Schema(Ok(data))) => (
            Stage::Stanzas(
                normalize::data_passed(
                    runtime_data(data, require_binary_identity),
                    EndpointPass::Ports,
                ),
            ),
            seq![],
        ),
        (Stage::Stanzas(data), Event::Stanzas(stanzas, table, mcp_default)) => {
            let (lowered, errors) = aliases::data_lowered(data, stanzas, table, mcp_default);
            if errors.len() > 0 {
                (
                    Stage::Rejected(
                        diagnostics::bounded(
                            "L7 policy validation failed"@,
                            repeated(errors.len(), "invalid L7 protocol configuration"@),
                        ),
                    ),
                    seq![],
                )
            } else {
                (Stage::Middleware(lowered), seq![])
            }
        },
        (Stage::Middleware(_), Event::Middleware(Err(_))) => (
            Stage::Rejected("failed to parse or convert middleware policy configuration"@),
            seq![],
        ),
        (Stage::Middleware(data), Event::Middleware(Ok(violations))) => if violations.len() > 0 {
            (
                Stage::Rejected(
                    diagnostics::bounded(
                        "middleware policy validation failed"@,
                        categories(violations),
                    ),
                ),
                seq![],
            )
        } else {
            (Stage::Rules(data), seq![])
        },
        (Stage::Rules(data), Event::Rules(errors, warnings)) => if errors > 0 {
            (
                Stage::Rejected(
                    diagnostics::bounded(
                        "L7 policy validation failed"@,
                        repeated(errors, "invalid L7 policy configuration"@),
                    ),
                ),
                seq![],
            )
        } else {
            (
                Stage::Presets(normalize::data_passed(data, EndpointPass::RuleAliases)),
                prefixed("L7 policy validation warning"@, warnings),
            )
        },
        (Stage::Presets(_), Event::Presets(data, warnings)) => (
            Stage::Ready(json_text::json_text(data)),
            prefixed("L7 access preset expansion warning"@, warnings),
        ),
        _ => (stage, seq![]),
    }
}

fn prefix_warnings(prefix: &str, warnings: &Vec<String>) -> (r: Vec<String>)
    ensures
        text::texts(r@) == prefixed(prefix@, text::texts(warnings@)),
{
    let ghost all = prefixed(prefix@, text::texts(warnings@));
    let mut r: Vec<String> = Vec::new();
    let mut i: usize = 0;
    while i < warnings.len()
        invariant
            i <= warnings@.len(),
            all == prefixed(prefix@, text::texts(warnings@)),
            text::texts(r@) == all.take(i as int),
        decreases warnings@.len() - i,
    {
        let ghost before = text::texts(r@);
        let mut line = prefix.to_string();
        line.append(": ");
        line.append(warnings[i].as_str());
        let ghost model = line@;
        r.push(line);
        assert(text::texts(r@) == before.push(model));
        assert(all[i as int] == model);
        assert(all.take(i + 1) == before.push(model));
        i += 1;
    }
    assert(all.take(i as int) == all);
    r
}

fn no_warnings() -> (r: Vec<String>)
    ensures
        text::texts(r@) == Seq::<Seq<char>>::empty(),
{
    let none: Vec<String> = Vec::new();
    assert(text::texts(none@) == Seq::<Seq<char>>::empty());
    none
}

fn add_runtime(data: JsonValue, require_binary_identity: bool) -> (r: JsonValue)
    ensures
        r@ == runtime_data(data@, require_binary_identity),
{
    let mut r = inject_runtime_policy_data(data, require_binary_identity);
    normalize_endpoint_protocols(&mut r);
    r
}

/// What data that may not be prepared yet denotes.
pub open spec fn prepared_model(data: Option<PreparedData>) -> Option<DataModel> {
    match data {
        Some(data) => Some(data@),
        None => None,
    }
}

/// The data for an engine that a stage of loading gives: the document, or the
/// rejection. A loading that is not over gives none.
pub open spec fn prepared_of(stage: Stage) -> Option<DataModel> {
    match stage {
        Stage::Ready(document) => Some(DataModel::Ready(document)),
        Stage::Rejected(message) => Some(DataModel::Rejected(message)),
        _ => None,
    }
}

/// The loading of candidate data.
#[derive(Debug)]
pub struct PolicyLoad {
    pub require_binary_identity: bool,
    pub state: LoadState,
}

impl PolicyLoad {
    /// Starts the loading of decoded raw data, given as JSON where it could be
    /// converted.
    pub fn from_raw_data(converted: Option<JsonValue>, require_binary_identity: bool) -> (r:
        PolicyLoad)
        ensures
            r.state@ == raw_start(converted_data(converted)),
            r.require_binary_identity == require_binary_identity,
    {
        let state = match converted {
            None => LoadState::Rejected("failed to convert YAML policy data to JSON".to_string()),
            Some(data) => match validate_opa_data_structure(&data) {
                Some(fault) => LoadState::Rejected(fault),
                None => LoadState::Schema(data),
            },
        };
        PolicyLoad { require_binary_identity, state }
    }

    /// Starts the loading of a typed policy, given the validated policy or its
    /// violations, and the number of ambiguities among its endpoints.
    pub fn from_policy(
        validated: &Result<SandboxPolicy, Vec<PolicyViolation>>,
        ambiguities: usize,
        require_binary_identity: bool,
    ) -> (r: PolicyLoad)
        ensures
            r.state@ == typed_start(*validated, ambiguities as nat, require_binary_identity),
            r.require_binary_identity == require_binary_identity,
    {
        let state = match validated {
            Err(violations) => LoadState::Rejected(
                render_violations("policy validation failed", violations),
            ),
            Ok(policy) => if ambiguities > 0 {
                LoadState::Rejected(
                    render_repeated_validation_diagnostic(
                        "network endpoint ambiguity validation failed",
                        ambiguities,
                        "ambiguous network endpoint selectors",
                    ),
                )
            } else {
                LoadState::Rules(
                    add_runtime(proto_to_opa_data_json(policy), require_binary_identity),
                )
            },
        };
        PolicyLoad { require_binary_identity, state }
    }

    fn on_stanzas(
        &mut self,
        data: JsonValue,
        stanzas: &Vec<ConfigStanza>,
        table: &Vec<Vec<Vec<Outcome>>>,
        mcp_default: &Outcome,
    )
        ensures
            final(self).require_binary_identity == old(self).require_binary_identity,
            final(self).state@ == advanced(
                Stage::Stanzas(data@),
                Event::Stanzas(
                    stanzas@,
                    aliases::lowering_table(table@),
                    aliases::lowering(*mcp_default),
                ),
                old(self).require_binary_identity,
            ).0,
    {
        let mut data = data;
        let errors = normalize_l7_config_aliases(&mut data, stanzas, table, mcp_default);
        assert(text::texts(errors@).len() == errors@.len());
        if errors.len() > 0 {
            self.state =
            LoadState::Rejected(
                render_repeated_validation_diagnostic(
                    "L7 policy validation failed",
                    errors.len(),
                    "invalid L7 protocol configuration",
                ),
            );
        } else {
            self.state = LoadState::Middleware(data);
        }
    }

    /// The data that the loading came to, once it is over.
    pub fn prepared(&self) -> (r: Option<PreparedData>)
        ensures
            prepared_model(r) == prepared_of(self.state@),
    {
        match &self.state {
            LoadState::Ready(document) => Some(PreparedData::Ready(document.clone())),
            LoadState::Rejected(message) => Some(PreparedData::Rejected(message.clone())),
            _ => None,
        }
    }

    /// Takes in the outcome of a check or normalization, and returns the
    /// warnings that are to be emitted.
    pub fn on(&mut self, event: LoadEvent) -> (warnings: Vec<String>)
        ensures
            final(self).require_binary_identity == old(self).require_binary_identity,
            (final(self).state@, text::texts(warnings@)) == advanced(
                old(self).state@,
                event@,
                old(self).require_binary_identity,
            ),
    {
        let mut state = LoadState::Rejected(String::new());
        std::mem::swap(&mut state, &mut self.state);
        match (state, event) {
            (LoadState::Schema(_), LoadEvent::Schema(Err(detail))) => {
                let mut message = "OPA policy schema validation failed: ".to_string();
                message.append(detail.as_str());
                self.state = LoadState::Rejected(message);
                no_warnings()
            },
            (LoadState::Schema(_), LoadEvent::Schema(Ok(data))) => {
                let mut data = add_runtime(data, self.require_binary_identity);
                normalize_endpoint_ports(&mut data);
                self.state = LoadState::Stanzas(data);
                no_warnings()
            },
            (LoadState::Stanzas(data), LoadEvent::Stanzas(stanzas, table, mcp_default)) => {
                self.on_stanzas(data, &stanzas, &table, &mcp_default);
                no_warnings()
            },
            (LoadState::Middleware(_), LoadEvent::Middleware(Err(_))) => {
                self.state =
                LoadState::Rejected(
                    "failed to parse or convert middleware policy configuration".to_string(),
                );
                no_warnings()
            },
            (LoadState::Middleware(data), LoadEvent::Middleware(Ok(violations))) => {
                if violations.len() > 0 {
                    self.state =
                    LoadState::Rejected(
                        render_violations("middleware policy validation failed", &violations),
                    );
                } else {
                    self.state = LoadState::Rules(data);
                }
                no_warnings()
            },
            (LoadState::Rules(data), LoadEvent::Rules(errors, warnings)) => {
                if errors > 0 {
                    self.state =
                    LoadState::Rejected(
                        render_repeated_validation_diagnostic(
                            "L7 policy validation failed",
                            errors,
                            "invalid L7 policy configuration",
                        ),
                    );
                    no_warnings()
                } else {
                    let mut data = data;
                    normalize_l7_policy_rule_aliases(&mut data);
                    self.state = LoadState::Presets(data);
                    prefix_warnings("L7 policy validation warning", &warnings)
                }
            },
            (LoadState::Presets(_), LoadEvent::Presets(data, warnings)) => {
                self.state = LoadState::Ready(json_text_of(&data));
                prefix_warnings("L7 access preset expansion warning", &warnings)
            },
            (other, _) => {
                self.state = other;
                no_warnings()
            },
        }
    }
}

/// A candidate that is rejected brings no warnings: they could show authored
/// values.
pub proof fn rejected_candidate_brings_no_warnings(
    stage: Stage,
    event: Event,
    require_binary_identity: bool,
)
    ensures
        advanced(stage, event, require_binary_identity).0 is Rejected ==> advanced(
            stage,
            event,
            require_binary_identity,
        ).1.len() == 0,
{
}

/// A candidate that is rejected or ready stays so.
pub proof fn finished_loading_stays(stage: Stage, event: Event, require_binary_identity: bool)
    requires
        stage is Ready || stage is Rejected,
    ensures
        advanced(stage, event, require_binary_identity).0 == stage,
{
}

/// The notice of the identity requirement of a policy that is loaded from a
/// source.
pub open spec fn identity_notice(require_binary_identity: bool, source: Seq<char>) -> Seq<char> {
    "OPA runtime binary identity mode configured [source:"@ + source
        + " require_binary_identity:"@ + (if require_binary_identity {
        "true"@
    } else {
        "false"@
    }) + "]"@
}

/// Writes the notice of the identity requirement of a policy.
pub fn binary_identity_notice(require_binary_identity: bool, source: &str) -> (r: String)
    ensures
        r@ == identity_notice(require_binary_identity, source@),
{
    let mut r = "OPA runtime binary identity mode configured [source:".to_string();
    r.append(source);
    r.append(" require_binary_identity:");
    r.append(
        if require_binary_identity {
            "true"
        } else {
            "false"
        },
    );
    r.append("]");
    r
}

/// The message for raw data that does not parse: what the parser says of it,
/// and where, but nothing of the data.
pub open spec fn parse_message(detail: Seq<char>, location: Option<(usize, usize)>) -> Seq<char> {
    match location {
        None => "failed to parse YAML data: "@ + detail,
        Some((line, column)) => "failed to parse YAML data: "@ + detail + " at line "@
            + numeral::numeral(line as nat, Base::Decimal) + ", column "@ + numeral::numeral(
            column as nat,
            Base::Decimal,
        ),
    }
}

/// Writes the message for raw data that does not parse.
pub fn redacted_raw_parse_error(detail: &str, location: Option<(usize, usize)>) -> (r: String)
    ensures
        r@ == parse_message(detail@, location),
{
    let mut r = "failed to parse YAML data: ".to_string();
    r.append(detail);
    if let Some((line, column)) = location {
        r.append(" at line ");
        r.append(numeral_of(line as u64, Base::Decimal).as_str());
        r.append(", column ");
        r.append(numeral_of(column as u64, Base::Decimal).as_str());
    }
    r
}

/// What went wrong with a file of raw data.
#[derive(Debug, Clone, Copy, PartialEq, Eq, Structural)]
pub enum RawFileFault {
    /// The file could not be read.
    Io,
    /// The path leads to no regular file.
    NotRegularFile,
    /// The contents do not parse.
    Contents,
}

/// The message for a file of raw data that cannot be used. Paths and parser
/// errors can contain policy contents, so neither is repeated.
pub open spec fn file_message(
    fault: RawFileFault,
    detail: Seq<char>,
    location: Option<(usize, usize)>,
) -> Seq<char> {
    match fault {
        RawFileFault::Contents => parse_message(detail, location),
        _ => "failed to read YAML policy data file"@,
    }
}

/// Writes the message for a file of raw data that cannot be used.
pub fn raw_file_error(fault: RawFileFault, detail: &str, location: Option<(usize, usize)>) -> (r:
    String)
    ensures
        r@ == file_message(fault, detail@, location),
{
    match fault {
        RawFileFault::Contents => redacted_raw_parse_error(detail, location),
        _ => "failed to read YAML policy data file".to_string(),
    }
}

} // verus!
