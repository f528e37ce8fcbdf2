//! Calls into the MCP inspection crate, from plain values to plain values.

use crate::json::{Json, JsonNumber, JsonValue};
use serde_json::Value;
use tower_mcp_types::inspection as mcp;
use tower_mcp_types::protocol;
use vstd::prelude::*;

verus! {

/// A decoded JSON value of the `serde_json` crate.
#[verifier::external_type_specification]
#[verifier::external_body]
pub struct ExSerdeValue(serde_json::Value);

/// A JSON-RPC envelope of the `tower_mcp_types` crate.
#[verifier::external_type_specification]
#[verifier::external_body]
pub struct ExJsonRpcEnvelope(tower_mcp_types::inspection::JsonRpcEnvelope);

/// An inspection failure of the `tower_mcp_types` crate.
#[verifier::external_type_specification]
#[verifier::external_body]
pub struct ExMcpInspectionError(tower_mcp_types::inspection::McpInspectionError);

/// An inspected method of the `tower_mcp_types` crate.
#[verifier::external_type_specification]
#[verifier::external_body]
pub struct ExMcpMethodInspection(tower_mcp_types::inspection::McpMethodInspection);

/// The sending side of an MCP message.
#[derive(Debug, Clone, Copy, PartialEq, Eq, Structural)]
pub enum McpDirection {
    ClientToServer,
    ServerToClient,
}

/// One JSON-RPC envelope.
#[derive(Debug)]
pub enum RpcEnvelope {
    /// A request with an id.
    Request(String, Option<JsonValue>),
    /// A notification without an id.
    Notification(String),
    /// A success or error response.
    Response,
    /// An envelope of no known kind.
    Other,
}

/// What an [`RpcEnvelope`] denotes.
#[verifier::ext_equal]
pub enum EnvelopeModel {
    Request(Seq<char>, Option<Json>),
    Notification(Seq<char>),
    Response,
    Other,
}

/// What optional params denote.
pub open spec fn params_of(params: Option<JsonValue>) -> Option<Json> {
    match params {
        Some(value) => Some(value@),
        None => None,
    }
}

impl View for RpcEnvelope {
    type V = EnvelopeModel;

    open spec fn view(&self) -> EnvelopeModel {
        match self {
            RpcEnvelope::Request(method, params) => EnvelopeModel::Request(
                method@,
                params_of(*params),
            ),
            RpcEnvelope::Notification(method) => EnvelopeModel::Notification(method@),
            RpcEnvelope::Response => EnvelopeModel::Response,
            RpcEnvelope::Other => EnvelopeModel::Other,
        }
    }
}

/// A JSON-RPC payload: one envelope or a batch.
#[derive(Debug)]
pub enum RpcPayload {
    Single(RpcEnvelope),
    Batch(Vec<RpcEnvelope>),
}

/// What an [`RpcPayload`] denotes.
#[verifier::ext_equal]
pub enum PayloadModel {
    Single(EnvelopeModel),
    Batch(Seq<EnvelopeModel>),
}

/// What a list of envelopes denotes.
pub open spec fn envelopes(list: Seq<RpcEnvelope>) -> Seq<EnvelopeModel> {
    list.map_values(|envelope: RpcEnvelope| envelope@)
}

impl View for RpcPayload {
    type V = PayloadModel;

    open spec fn view(&self) -> PayloadModel {
        match self {
            RpcPayload::Single(envelope) => PayloadModel::Single(envelope@),
            RpcPayload::Batch(list) => PayloadModel::Batch(envelopes(list@)),
        }
    }
}

/// What the inspection of a payload gave.
pub open spec fn payload_outcome(outcome: Result<RpcPayload, String>) -> Result<
    PayloadModel,
    Seq<char>,
> {
    match outcome {
        Ok(payload) => Ok(payload@),
        Err(detail) => Err(detail@),
    }
}

/// How a method relates to the selected revision.
#[derive(Debug, Clone, Copy, PartialEq, Eq, Structural)]
pub enum MethodAvailability {
    Available,
    Extension,
    Unavailable,
    Unsupported,
}

/// One method that an inspection found.
#[derive(Debug)]
pub struct InspectedMethod {
    pub method: String,
    pub is_notification: bool,
    pub availability: MethodAvailability,
    pub batch_index: Option<usize>,
}

/// What an [`InspectedMethod`] denotes.
#[verifier::ext_equal]
pub struct MethodModel {
    pub method: Seq<char>,
    pub is_notification: bool,
    pub availability: MethodAvailability,
    pub batch_index: Option<usize>,
}

impl View for InspectedMethod {
    type V = MethodModel;

    open spec fn view(&self) -> MethodModel {
        MethodModel {
            method: self.method@,
            is_notification: self.is_notification,
            availability: self.availability,
            batch_index: self.batch_index,
        }
    }
}

/// What a list of methods denotes.
pub open spec fn methods_of(list: Seq<InspectedMethod>) -> Seq<MethodModel> {
    list.map_values(|method: InspectedMethod| method@)
}

/// Category of an inspection failure.
#[derive(Debug, Clone, Copy, PartialEq, Eq, Structural)]
pub enum McpFailureKind {
    UnsupportedProfile,
    JsonRpc,
    BatchUnavailable,
    InitializeInBatch,
    MessageKindMismatch,
    DirectionMismatch,
    MissingParams,
    InvalidParams,
    Other,
}

/// An inspection failure.
#[derive(Debug)]
pub struct McpFailure {
    pub kind: McpFailureKind,
    pub detail: String,
}

/// What an [`McpFailure`] denotes.
#[verifier::ext_equal]
pub struct FailureModel {
    pub kind: McpFailureKind,
    pub detail: Seq<char>,
}

impl View for McpFailure {
    type V = FailureModel;

    open spec fn view(&self) -> FailureModel {
        FailureModel { kind: self.kind, detail: self.detail@ }
    }
}

/// What the inspection under a revision gave.
pub open spec fn methods_outcome(outcome: Result<Vec<InspectedMethod>, McpFailure>) -> Result<
    Seq<MethodModel>,
    FailureModel,
> {
    match outcome {
        Ok(list) => Ok(methods_of(list@)),
        Err(failure) => Err(failure@),
    }
}

/// What the lookup of a tool name gave.
pub open spec fn tool_outcome(outcome: Result<Option<String>, String>) -> Result<
    Option<Seq<char>>,
    Seq<char>,
> {
    match outcome {
        Ok(Some(name)) => Ok(Some(name@)),
        Ok(None) => Ok(None),
        Err(detail) => Err(detail@),
    }
}

/// The payload, or the diagnostic, that `JsonRpcPayload::inspect` makes of a
/// JSON value.
pub uninterp spec fn json_rpc_payload(value: Json) -> Result<PayloadModel, Seq<char>>;

/// The methods, or the failure, that `McpInspector::inspect` makes of a JSON
/// value under a revision and in a direction.
pub uninterp spec fn mcp_inspection(
    value: Json,
    revision: Seq<char>,
    direction: McpDirection,
) -> Result<Seq<MethodModel>, FailureModel>;

/// The diagnostic with which a JSON value fails to decode as
/// `InitializeParams`, if it does.
pub uninterp spec fn initialize_params_fault(params: Json) -> Option<Seq<char>>;

/// The tool name, or the diagnostic, that `McpRequest::from_jsonrpc` gives for
/// a method and params.
pub uninterp spec fn called_tool(method: Seq<char>, params: Option<Json>) -> Result<
    Option<Seq<char>>,
    Seq<char>,
>;

/// Converts a value to its `serde_json` form, variant by variant. A decimal
/// text is read as a `serde_json::Number`; a text that is none becomes null.
#[verifier::external_body]
pub(crate) fn to_wire(value: &JsonValue) -> Value {
    match value {
        JsonValue::Null => Value::Null,
        JsonValue::Bool(b) => Value::Bool(*b),
        JsonValue::Number(JsonNumber::Unsigned(n)) => Value::from(*n),
        JsonValue::Number(JsonNumber::Negative(n)) => Value::from(*n),
        JsonValue::Number(JsonNumber::Decimal(s)) => s.parse().map_or(Value::Null, Value::Number),
        JsonValue::Text(s) => Value::String(s.clone()),
        JsonValue::Array(items) => items.iter().map(to_wire).collect(),
        JsonValue::Object(list) => list.iter().map(|e| (e.0.clone(), to_wire(&e.1))).collect(),
    }
}

/// Converts a `serde_json` value to the library's form, one for one.
#[verifier::external_body]
pub(crate) fn from_wire(value: &Value) -> JsonValue {
    match value {
        Value::Null => JsonValue::Null,
        Value::Bool(b) => JsonValue::Bool(*b),
        Value::Number(n) => JsonValue::Number(match (n.as_u64(), n.as_i64()) {
            (Some(n), _) => JsonNumber::Unsigned(n),
            (None, Some(n)) => JsonNumber::Negative(n),
            (None, None) => JsonNumber::Decimal(n.to_string()),
        }),
        Value::String(s) => JsonValue::Text(s.clone()),
        Value::Array(items) => JsonValue::Array(items.iter().map(from_wire).collect()),
        Value::Object(o) => {
            JsonValue::Object(o.iter().map(|(k, v)| (k.clone(), from_wire(v))).collect())
        },
    }
}

/// Converts an envelope to the library's form.
#[verifier::external_body]
fn plain_envelope(envelope: &mcp::JsonRpcEnvelope) -> RpcEnvelope {
    match envelope {
        mcp::JsonRpcEnvelope::Request(r) => {
            RpcEnvelope::Request(r.method.clone(), r.params.as_ref().map(from_wire))
        },
        mcp::JsonRpcEnvelope::Notification(n) => RpcEnvelope::Notification(n.method.clone()),
        mcp::JsonRpcEnvelope::Result(_) => RpcEnvelope::Response,
        mcp::JsonRpcEnvelope::Error(_) => RpcEnvelope::Response,
        _ => RpcEnvelope::Other,
    }
}

/// Converts an inspection failure to the library's form.
#[verifier::external_body]
fn plain_failure(error: mcp::McpInspectionError) -> McpFailure {
    let kind = match error.kind() {
        mcp::McpInspectionErrorKind::UnsupportedProfile => McpFailureKind::UnsupportedProfile,
        mcp::McpInspectionErrorKind::JsonRpc => McpFailureKind::JsonRpc,
        mcp::McpInspectionErrorKind::BatchUnavailable => McpFailureKind::BatchUnavailable,
        mcp::McpInspectionErrorKind::InitializeInBatch => McpFailureKind::InitializeInBatch,
        mcp::McpInspectionErrorKind::MessageKindMismatch => McpFailureKind::MessageKindMismatch,
        mcp::McpInspectionErrorKind::DirectionMismatch => McpFailureKind::DirectionMismatch,
        mcp::McpInspectionErrorKind::MissingParams => McpFailureKind::MissingParams,
        mcp::McpInspectionErrorKind::InvalidParams => McpFailureKind::InvalidParams,
        _ => McpFailureKind::Other,
    };
    McpFailure { kind, detail: error.to_string() }
}

/// Converts an inspected method to the library's form.
#[verifier::external_body]
fn plain_method(found: &mcp::McpMethodInspection) -> InspectedMethod {
    InspectedMethod {
        method: found.method().to_string(),
        is_notification: matches!(found.kind(), mcp::McpCallKind::Notification),
        availability: match found.classification() {
            mcp::McpMethodClassification::Available => MethodAvailability::Available,
            mcp::McpMethodClassification::Extension => MethodAvailability::Extension,
            mcp::McpMethodClassification::Unavailable => MethodAvailability::Unavailable,
            _ => MethodAvailability::Unsupported,
        },
        batch_index: found.batch_index(),
    }
}

/// `JsonRpcPayload::inspect` classifies a JSON value as one envelope or, where
/// it is an array, as a batch, or says why it is neither. Which envelopes it
/// finds depends on the value alone.
#[verifier::external_body]
pub(crate) fn inspect_json_rpc(value: &JsonValue) -> (outcome: Result<RpcPayload, String>)
    ensures
        payload_outcome(outcome) == json_rpc_payload(value@),
        outcome matches Ok(payload) ==> (payload is Batch <==> value@ is Array),
{
    let payload = mcp::JsonRpcPayload::inspect(&to_wire(value)).map_err(
        |error| error.to_string(),
    )?;
    Ok(match (payload.as_single(), payload.as_batch()) {
        (Some(envelope), _) => RpcPayload::Single(plain_envelope(envelope)),
        (None, batch) => RpcPayload::Batch(
            batch.map_or(&[][..], |b| b.messages()).iter().map(plain_envelope).collect(),
        ),
    })
}

/// `McpInspector::inspect` classifies the methods of a payload under one exact
/// revision and in one direction, or fails. What it finds depends on these
/// arguments alone.
#[verifier::external_body]
pub(crate) fn inspect_revision(value: &JsonValue, revision: &str, direction: McpDirection) -> (
    outcome: Result<Vec<InspectedMethod>, McpFailure>)
    ensures
        methods_outcome(outcome) == mcp_inspection(value@, revision@, direction),
{
    let side = match direction {
        McpDirection::ClientToServer => mcp::McpDirection::ClientToServer,
        McpDirection::ServerToClient => mcp::McpDirection::ServerToClient,
    };
    let inspector = mcp::McpInspector::new(revision).map_err(plain_failure)?;
    let found = inspector.inspect(&to_wire(value), Some(side)).map_err(plain_failure)?;
    Ok(found.methods().iter().map(plain_method).collect())
}

/// `serde_json::from_value` decodes params as `InitializeParams` or says why
/// they do not decode.
#[verifier::external_body]
pub(crate) fn check_initialize_params(params: &JsonValue) -> (fault: Option<String>)
    ensures
        match fault {
            Some(detail) => initialize_params_fault(params@) == Some(detail@),
            None => initialize_params_fault(params@) is None,
        },
{
    serde_json::from_value::<protocol::InitializeParams>(to_wire(params)).err().map(
        |error| error.to_string(),
    )
}

/// `McpRequest::from_jsonrpc` reads the method and params of a request; a tool
/// call has a tool name.
#[verifier::external_body]
pub(crate) fn tool_of_call(method: &str, params: &Option<JsonValue>) -> (outcome: Result<
    Option<String>,
    String,
>)
    ensures
        tool_outcome(outcome) == called_tool(method@, params_of(*params)),
{
    let mut request = protocol::JsonRpcRequest::new(0, method);
    request.params = params.as_ref().map(to_wire);
    match protocol::McpRequest::from_jsonrpc(&request) {
        Ok(protocol::McpRequest::CallTool(call)) => Ok(Some(call.name)),
        Ok(_) => Ok(None),
        Err(error) => Err(error.to_string()),
    }
}

} // verus!
