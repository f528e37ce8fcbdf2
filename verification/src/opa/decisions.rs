//! What the results of policy rules mean: decisions on network access.

use crate::json;
use crate::json::{Json, JsonNumber, JsonValue};
use crate::opa::builder;
use crate::opa::builder::texts_value;
use crate::opa::evaluation;
use crate::opa::evaluation::Evaluated;
use crate::opa::rego;
use crate::opa::rego::{
    copy_values, get_bool, get_field, get_str, get_str_array, Rego, RegoValue,
};
use crate::text;
use crate::text::{chars_of, same};
use vstd::prelude::*;

verus! {

broadcast use json::group_json_views;

/// Result of evaluating a network access request against policy.
#[derive(Debug)]
pub struct PolicyDecision {
    pub allowed: bool,
    pub reason: String,
    pub matched_policy: Option<String>,
}

/// What a [`PolicyDecision`] denotes.
#[verifier::ext_equal]
pub struct Decision {
    pub allowed: bool,
    pub reason: Seq<char>,
    pub matched_policy: Option<Seq<char>>,
}

impl View for PolicyDecision {
    type V = Decision;

    open spec fn view(&self) -> Decision {
        Decision {
            allowed: self.allowed,
            reason: self.reason@,
            matched_policy: rego::optional_text(self.matched_policy),
        }
    }
}

/// Routing action for a network access request.
#[derive(Debug, Clone, PartialEq, Eq)]
pub enum NetworkAction {
    /// Endpoint and binary matched in a network policy.
    Allow { matched_policy: Option<String> },
    /// No policy matched.
    Deny { reason: String },
}

/// What a [`NetworkAction`] denotes.
#[verifier::ext_equal]
pub enum ActionModel {
    Allow(Option<Seq<char>>),
    Deny(Seq<char>),
}

impl View for NetworkAction {
    type V = ActionModel;

    open spec fn view(&self) -> ActionModel {
        match self {
            NetworkAction::Allow { matched_policy } => ActionModel::Allow(
                rego::optional_text(*matched_policy),
            ),
            NetworkAction::Deny { reason } => ActionModel::Deny(reason@),
        }
    }
}

/// Endpoint identity and metadata captured with one policy generation.
#[derive(Debug)]
pub struct MatchedEndpoint {
    pub policy_name: String,
    pub endpoint_index: usize,
    pub endpoint: RegoValue,
}

/// What a [`MatchedEndpoint`] denotes.
#[verifier::ext_equal]
pub struct EndpointModel {
    pub policy_name: Seq<char>,
    pub endpoint_index: int,
    pub endpoint: Rego,
}

impl View for MatchedEndpoint {
    type V = EndpointModel;

    open spec fn view(&self) -> EndpointModel {
        EndpointModel {
            policy_name: self.policy_name@,
            endpoint_index: self.endpoint_index as int,
            endpoint: self.endpoint@,
        }
    }
}

/// What a list of endpoints denotes.
pub open spec fn endpoints(list: Seq<MatchedEndpoint>) -> Seq<EndpointModel> {
    list.map_values(|endpoint: MatchedEndpoint| endpoint@)
}

/// Endpoint metadata that is eligible for policy DNS, captured from one policy
/// generation. This is policy data only: it holds no process identity and no
/// authorization.
#[derive(Debug)]
pub struct PolicyDnsEligibilitySnapshot {
    pub endpoints: Vec<MatchedEndpoint>,
    pub generation: u64,
}

/// Policy result used to authorize one egress request.
#[derive(Debug)]
pub struct EgressAuthorization {
    pub action: NetworkAction,
    pub endpoint_configs: Vec<RegoValue>,
    pub matched_endpoints: Vec<MatchedEndpoint>,
    pub exact_declared_endpoint_host: bool,
    pub generation: u64,
}

/// What an [`EgressAuthorization`] denotes.
#[verifier::ext_equal]
pub struct Authorization {
    pub action: ActionModel,
    pub endpoint_configs: Seq<Rego>,
    pub matched_endpoints: Seq<EndpointModel>,
    pub exact_declared_endpoint_host: bool,
    pub generation: u64,
}

impl View for EgressAuthorization {
    type V = Authorization;

    open spec fn view(&self) -> Authorization {
        Authorization {
            action: self.action@,
            endpoint_configs: rego::values(self.endpoint_configs@),
            matched_endpoints: endpoints(self.matched_endpoints@),
            exact_declared_endpoint_host: self.exact_declared_endpoint_host,
            generation: self.generation,
        }
    }
}

/// Input for a network access policy evaluation. Paths are given as text.
#[derive(Debug)]
pub struct NetworkInput {
    pub host: String,
    pub port: u16,
    pub binary_path: String,
    pub binary_sha256: String,
    /// Binary paths of the parent, the grandparent and so on.
    pub ancestors: Vec<String>,
    /// Absolute paths among the command line arguments of the process that
    /// owns the socket and of its ancestors: they show scripts, whose
    /// interpreter is the binary.
    pub cmdline_paths: Vec<String>,
}

/// The input document of a network access request.
pub open spec fn input_document(input: NetworkInput) -> Json {
    Json::Object(
        seq![
            (
                "exec"@,
                Json::Object(
                    seq![
                        ("path"@, Json::Text(input.binary_path@)),
                        ("ancestors"@, builder::text_array(text::texts(input.ancestors@))),
                        ("cmdline_paths"@, builder::text_array(text::texts(input.cmdline_paths@))),
                    ],
                ),
            ),
            (
                "network"@,
                Json::Object(
                    seq![
                        ("host"@, Json::Text(input.host@)),
                        ("port"@, builder::number(input.port as int)),
                    ],
                ),
            ),
        ],
    )
}

/// Writes the input document of a network access request.
pub fn network_input_json(input: &NetworkInput) -> (r: JsonValue)
    ensures
        r@ == input_document(*input),
{
    let mut process: Vec<(String, JsonValue)> = Vec::new();
    process.push(("path".to_string(), JsonValue::Text(input.binary_path.clone())));
    process.push(("ancestors".to_string(), texts_value(&input.ancestors)));
    process.push(("cmdline_paths".to_string(), texts_value(&input.cmdline_paths)));
    assert(json::entries(process@) == seq![
        ("path"@, Json::Text(input.binary_path@)),
        ("ancestors"@, builder::text_array(text::texts(input.ancestors@))),
        ("cmdline_paths"@, builder::text_array(text::texts(input.cmdline_paths@))),
    ]);
    let mut network: Vec<(String, JsonValue)> = Vec::new();
    network.push(("host".to_string(), JsonValue::Text(input.host.clone())));
    network.push(
        ("port".to_string(), JsonValue::Number(JsonNumber::Unsigned(input.port as u64))),
    );
    assert(json::entries(network@) == seq![
        ("host"@, Json::Text(input.host@)),
        ("port"@, builder::number(input.port as int)),
    ]);
    let mut document: Vec<(String, JsonValue)> = Vec::new();
    document.push(("exec".to_string(), JsonValue::Object(process)));
    document.push(("network".to_string(), JsonValue::Object(network)));
    assert(json::entries(document@) == input_document(*input)->Object_0);
    JsonValue::Object(document)
}

/// The text of a result: a text is itself, no result is empty, and anything
/// else is its JSON text, which a number without one does not have.
pub open spec fn text_of(value: Rego, displayed: Option<Seq<char>>) -> Option<Seq<char>> {
    match value {
        Rego::Text(s) => Some(s),
        Rego::Undefined => Some(seq![]),
        _ => displayed,
    }
}

/// Gives the text of a result.
pub fn value_to_string(evaluated: &Evaluated) -> (r: Option<String>)
    ensures
        rego::optional_text(r) == text_of(
            evaluated.value@,
            evaluation::displayed_of(*evaluated),
        ),
{
    match &evaluated.value {
        RegoValue::Text(s) => Some(s.clone()),
        RegoValue::Undefined => {
            let empty = String::new();
            assert(empty@ == Seq::<char>::empty());
            Some(empty)
        },
        _ => match &evaluated.displayed {
            Some(shown) => Some(shown.clone()),
            None => None,
        },
    }
}

/// The decision that the results of the network rules make, given the texts of
/// the last two.
pub open spec fn decision(
    allowed: Rego,
    reason: Option<Seq<char>>,
    matched: Rego,
    matched_text: Option<Seq<char>>,
) -> Option<Decision> {
    match reason {
        None => None,
        Some(reason) => if matched is Undefined {
            Some(Decision { allowed: allowed == Rego::Bool(true), reason, matched_policy: None })
        } else {
            match matched_text {
                None => None,
                Some(name) => Some(
                    Decision {
                        allowed: allowed == Rego::Bool(true),
                        reason,
                        matched_policy: Some(name),
                    },
                ),
            }
        },
    }
}

fn is_true(value: &RegoValue) -> (r: bool)
    ensures
        r == (value@ == Rego::Bool(true)),
{
    match value {
        RegoValue::Bool(b) => *b,
        _ => false,
    }
}

/// Makes the decision from the results of the network rules.
pub fn decide_network(allowed: &Evaluated, reason: &Evaluated, matched: &Evaluated) -> (r: Option<
    PolicyDecision,
>)
    ensures
        match r {
            Some(d) => Some(d@),
            None => None,
        } == decision(
            allowed.value@,
            text_of(reason.value@, evaluation::displayed_of(*reason)),
            matched.value@,
            text_of(matched.value@, evaluation::displayed_of(*matched)),
        ),
{
    let text = match value_to_string(reason) {
        Some(text) => text,
        None => {
            return None;
        },
    };
    let matched_policy = match &matched.value {
        RegoValue::Undefined => None,
        _ => match value_to_string(matched) {
            Some(name) => Some(name),
            None => {
                return None;
            },
        },
    };
    Some(PolicyDecision { allowed: is_true(&allowed.value), reason: text, matched_policy })
}

/// The endpoint that a value records, if it does.
pub open spec fn matched_endpoint(value: Rego) -> Option<EndpointModel> {
    match (
        rego::text_field(value, "policy_name"@),
        rego::field(value, "endpoint_index"@),
        rego::field(value, "endpoint"@),
    ) {
        (Some(policy_name), Some(Rego::Number(Some(index), _)), Some(endpoint)) => if 0 <= index
            <= usize::MAX {
            Some(EndpointModel { policy_name, endpoint_index: index as int, endpoint })
        } else {
            None
        },
        _ => None,
    }
}

/// Reads the endpoint that a value records.
pub fn parse_matched_endpoint(value: &RegoValue) -> (r: Option<MatchedEndpoint>)
    ensures
        match r {
            Some(endpoint) => matched_endpoint(value@) == Some(endpoint@),
            None => matched_endpoint(value@) is None,
        },
{
    let policy_name = match get_str(value, "policy_name") {
        Some(name) => name,
        None => {
            return None;
        },
    };
    let index: i64 = match get_field(value, "endpoint_index") {
        Some(RegoValue::Number(number)) => match number.integer {
            Some(index) => index,
            None => {
                return None;
            },
        },
        _ => {
            return None;
        },
    };
    let endpoint_index: usize = if 0 <= index && index as u64 <= usize::MAX as u64 {
        index as usize
    } else {
        return None;
    };
    match get_field(value, "endpoint") {
        Some(endpoint) => Some(
            MatchedEndpoint { policy_name, endpoint_index, endpoint: endpoint.copy() },
        ),
        None => None,
    }
}

/// The endpoints that values record.
pub open spec fn recorded_endpoints(items: Seq<Rego>) -> Seq<EndpointModel>
    decreases items.len(),
{
    if items.len() == 0 {
        seq![]
    } else {
        let before = recorded_endpoints(items.drop_last());
        match matched_endpoint(items.last()) {
            Some(endpoint) => before.push(endpoint),
            None => before,
        }
    }
}

fn parse_matched_endpoints(items: &Vec<RegoValue>) -> (r: Vec<MatchedEndpoint>)
    ensures
        endpoints(r@) == recorded_endpoints(rego::values(items@)),
{
    let ghost all = rego::values(items@);
    let mut r: Vec<MatchedEndpoint> = Vec::new();
    assert(endpoints(r@) == Seq::<EndpointModel>::empty());
    let mut i: usize = 0;
    while i < items.len()
        invariant
            i <= items@.len(),
            all == rego::values(items@),
            endpoints(r@) == recorded_endpoints(all.take(i as int)),
        decreases items@.len() - i,
    {
        assert(all.take(i + 1).drop_last() == all.take(i as int));
        assert(all.take(i + 1).last() == items@[i as int]@);
        let ghost before = endpoints(r@);
        if let Some(endpoint) = parse_matched_endpoint(&items[i]) {
            let ghost model = endpoint@;
            r.push(endpoint);
            assert(endpoints(r@) == before.push(model));
        }
        i += 1;
    }
    assert(all.take(i as int) == all);
    r
}

/// A text that is there and not empty.
pub open spec fn nonempty(s: Option<Seq<char>>) -> Option<Seq<char>> {
    match s {
        Some(t) => if t.len() > 0 {
            Some(t)
        } else {
            None
        },
        None => None,
    }
}

/// The reason for a denial that no rule explains.
pub open spec fn default_denial() -> Seq<char> {
    "network connections not allowed by policy"@
}

/// The action that an authorization result stands for.
pub open spec fn action_of(value: Rego) -> ActionModel {
    if rego::text_field(value, "action"@) == Some("allow"@) {
        ActionModel::Allow(nonempty(rego::text_field(value, "matched_policy"@)))
    } else {
        ActionModel::Deny(
            match nonempty(rego::text_field(value, "deny_reason"@)) {
                Some(reason) => reason,
                None => default_denial(),
            },
        )
    }
}

/// The items of an array under a key, or none.
pub open spec fn array_items(value: Rego, key: Seq<char>) -> Seq<Rego> {
    match rego::field(value, key) {
        Some(Rego::Array(items)) => items,
        _ => seq![],
    }
}

/// The authorization that a result of the authorization rule stands for.
pub open spec fn authorization(value: Rego, generation: u64) -> Authorization {
    Authorization {
        action: action_of(value),
        endpoint_configs: array_items(value, "endpoint_configs"@),
        matched_endpoints: recorded_endpoints(array_items(value, "matched_endpoints"@)),
        exact_declared_endpoint_host: rego::bool_field(value, "exact_declared_endpoint_host"@)
            == Some(true),
        generation,
    }
}

fn get_nonempty(value: &RegoValue, key: &str) -> (r: Option<String>)
    ensures
        rego::optional_text(r) == nonempty(rego::text_field(value@, key@)),
{
    match get_str(value, key) {
        Some(s) => if chars_of(s.as_str()).len() > 0 {
            Some(s)
        } else {
            None
        },
        None => None,
    }
}

/// Reads the authorization from a result of the authorization rule.
pub fn authorize(value: &RegoValue, generation: u64) -> (r: EgressAuthorization)
    ensures
        r@ == authorization(value@, generation),
{
    let allowed = match get_str(value, "action") {
        Some(action) => same(action.as_str(), "allow"),
        None => false,
    };
    let endpoint_configs: Vec<RegoValue> = match get_field(value, "endpoint_configs") {
        Some(RegoValue::Array(items)) => {
            proof {
                rego::array_view(*items);
            }
            copy_values(items)
        },
        _ => Vec::new(),
    };
    assert(rego::values(endpoint_configs@) == array_items(value@, "endpoint_configs"@));
    let matched_endpoints: Vec<MatchedEndpoint> = match get_field(value, "matched_endpoints") {
        Some(RegoValue::Array(items)) => {
            proof {
                rego::array_view(*items);
            }
            parse_matched_endpoints(items)
        },
        _ => Vec::new(),
    };
    assert(endpoints(matched_endpoints@) == recorded_endpoints(
        array_items(value@, "matched_endpoints"@),
    ));
    let exact_declared_endpoint_host = match get_bool(value, "exact_declared_endpoint_host") {
        Some(exact) => exact,
        None => false,
    };
    let action = if allowed {
        NetworkAction::Allow { matched_policy: get_nonempty(value, "matched_policy") }
    } else {
        NetworkAction::Deny {
            reason: match get_nonempty(value, "deny_reason") {
                Some(reason) => reason,
                None => "network connections not allowed by policy".to_string(),
            },
        }
    };
    EgressAuthorization {
        action,
        endpoint_configs,
        matched_endpoints,
        exact_declared_endpoint_host,
        generation,
    }
}

/// The authorization under quarantine: a denial for the quarantine's reason.
pub open spec fn quarantine_authorization(reason: Seq<char>, generation: u64) -> Authorization {
    Authorization {
        action: ActionModel::Deny(reason),
        endpoint_configs: seq![],
        matched_endpoints: seq![],
        exact_declared_endpoint_host: false,
        generation,
    }
}

/// Denies for the reason of a quarantine.
pub fn deny_quarantined(reason: &str, generation: u64) -> (r: EgressAuthorization)
    ensures
        r@ == quarantine_authorization(reason@, generation),
{
    let r = EgressAuthorization {
        action: NetworkAction::Deny { reason: reason.to_string() },
        endpoint_configs: Vec::new(),
        matched_endpoints: Vec::new(),
        exact_declared_endpoint_host: false,
        generation,
    };
    assert(r@.endpoint_configs == Seq::<Rego>::empty());
    assert(r@.matched_endpoints == Seq::<EndpointModel>::empty());
    r
}

/// The records that a rule gave: none, those of an array, or a single one.
pub open spec fn records(value: Rego) -> Seq<Rego> {
    match value {
        Rego::Undefined => seq![],
        Rego::Array(items) => items,
        other => seq![other],
    }
}

/// Lists the records that a rule gave.
pub fn records_of(value: &RegoValue) -> (r: Vec<RegoValue>)
    ensures
        rego::values(r@) == records(value@),
{
    match value {
        RegoValue::Undefined => {
            let none: Vec<RegoValue> = Vec::new();
            assert(rego::values(none@) == Seq::<Rego>::empty());
            none
        },
        RegoValue::Array(items) => {
            proof {
                rego::array_view(*items);
            }
            copy_values(items)
        },
        other => {
            let mut one: Vec<RegoValue> = Vec::new();
            one.push(other.copy());
            assert(rego::values(one@) == seq![other@]);
            one
        },
    }
}

/// Lists the endpoints that a rule recorded.
pub fn dns_endpoints(value: &RegoValue) -> (r: Vec<MatchedEndpoint>)
    ensures
        endpoints(r@) == recorded_endpoints(records(value@)),
{
    parse_matched_endpoints(&records_of(value))
}

/// Filesystem access of the sandbox. Paths are given as text.
#[derive(Debug)]
pub struct FilesystemPolicy {
    pub read_only: Vec<String>,
    pub read_write: Vec<String>,
    pub include_workdir: bool,
}

/// What a kernel without full Landlock support means.
#[derive(Debug, Clone, Copy, PartialEq, Eq, Structural)]
pub enum LandlockCompatibility {
    BestEffort,
    HardRequirement,
}

/// Landlock settings of the sandbox.
#[derive(Debug)]
pub struct LandlockPolicy {
    pub compatibility: LandlockCompatibility,
}

/// User and group of the sandboxed process.
#[derive(Debug)]
pub struct ProcessPolicy {
    pub run_as_user: Option<String>,
    pub run_as_group: Option<String>,
}

/// Sandbox configuration extracted from policy at startup.
#[derive(Debug)]
pub struct SandboxConfig {
    pub filesystem: FilesystemPolicy,
    pub landlock: LandlockPolicy,
    pub process: ProcessPolicy,
}

/// What a [`SandboxConfig`] denotes.
#[verifier::ext_equal]
pub struct ConfigModel {
    pub read_only: Seq<Seq<char>>,
    pub read_write: Seq<Seq<char>>,
    pub include_workdir: bool,
    pub compatibility: LandlockCompatibility,
    pub run_as_user: Option<Seq<char>>,
    pub run_as_group: Option<Seq<char>>,
}

impl View for SandboxConfig {
    type V = ConfigModel;

    open spec fn view(&self) -> ConfigModel {
        ConfigModel {
            read_only: text::texts(self.filesystem.read_only@),
            read_write: text::texts(self.filesystem.read_write@),
            include_workdir: self.filesystem.include_workdir,
            compatibility: self.landlock.compatibility,
            run_as_user: rego::optional_text(self.process.run_as_user),
            run_as_group: rego::optional_text(self.process.run_as_group),
        }
    }
}

/// The Landlock compatibility that a result stands for.
pub open spec fn compatibility_of(value: Rego) -> LandlockCompatibility {
    if rego::text_field(value, "compatibility"@) == Some("hard_requirement"@) {
        LandlockCompatibility::HardRequirement
    } else {
        LandlockCompatibility::BestEffort
    }
}

/// The sandbox configuration that the results of three rules stand for.
pub open spec fn config_of(filesystem: Rego, landlock: Rego, process: Rego) -> ConfigModel {
    ConfigModel {
        read_only: rego::text_list(filesystem, "read_only"@),
        read_write: rego::text_list(filesystem, "read_write"@),
        include_workdir: rego::bool_field(filesystem, "include_workdir"@) != Some(false),
        compatibility: compatibility_of(landlock),
        run_as_user: rego::text_field(process, "run_as_user"@),
        run_as_group: rego::text_field(process, "run_as_group"@),
    }
}

/// Reads the filesystem settings from a result. The working directory counts
/// unless a rule says otherwise.
pub fn parse_filesystem_policy(value: &RegoValue) -> (r: FilesystemPolicy)
    ensures
        text::texts(r.read_only@) == rego::text_list(value@, "read_only"@),
        text::texts(r.read_write@) == rego::text_list(value@, "read_write"@),
        r.include_workdir == (rego::bool_field(value@, "include_workdir"@) != Some(false)),
{
    FilesystemPolicy {
        read_only: get_str_array(value, "read_only"),
        read_write: get_str_array(value, "read_write"),
        include_workdir: match get_bool(value, "include_workdir") {
            Some(included) => included,
            None => true,
        },
    }
}

/// Reads the Landlock settings from a result.
pub fn parse_landlock_policy(value: &RegoValue) -> (r: LandlockPolicy)
    ensures
        r.compatibility == compatibility_of(value@),
{
    let hard = match get_str(value, "compatibility") {
        Some(s) => same(s.as_str(), "hard_requirement"),
        None => false,
    };
    LandlockPolicy {
        compatibility: if hard {
            LandlockCompatibility::HardRequirement
        } else {
            LandlockCompatibility::BestEffort
        },
    }
}

/// Reads the process settings from a result.
pub fn parse_process_policy(value: &RegoValue) -> (r: ProcessPolicy)
    ensures
        rego::optional_text(r.run_as_user) == rego::text_field(value@, "run_as_user"@),
        rego::optional_text(r.run_as_group) == rego::text_field(value@, "run_as_group"@),
{
    ProcessPolicy {
        run_as_user: get_str(value, "run_as_user"),
        run_as_group: get_str(value, "run_as_group"),
    }
}

/// Reads the sandbox configuration from the results of three rules.
pub fn sandbox_config(filesystem: &RegoValue, landlock: &RegoValue, process: &RegoValue) -> (r:
    SandboxConfig)
    ensures
        r@ == config_of(filesystem@, landlock@, process@),
{
    SandboxConfig {
        filesystem: parse_filesystem_policy(filesystem),
        landlock: parse_landlock_policy(landlock),
        process: parse_process_policy(process),
    }
}

} // verus!
