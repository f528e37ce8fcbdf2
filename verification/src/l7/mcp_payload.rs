//! Inspection of MCP payloads under a transport-selected revision.

use crate::json::{Json, JsonValue};
use crate::l7::jsonrpc;
use crate::l7::jsonrpc::{
    mcp_policy_params, CallModel, ErrorModel, InfoModel, JsonRpcCallInfo, JsonRpcInspectionError,
    JsonRpcInspectionErrorKind, JsonRpcInspectionOptions, JsonRpcRequestInfo,
    McpMethodClassification, PolicyParams,
};
use crate::l7::mcp_inspection;
use crate::l7::mcp_inspection::{
    check_initialize_params, inspect_json_rpc, inspect_revision, tool_of_call, EnvelopeModel,
    FailureModel, InspectedMethod, McpDirection, McpFailure, McpFailureKind, MethodAvailability,
    MethodModel, PayloadModel, RpcEnvelope, RpcPayload,
};
use crate::l7::protocol::{McpProtocolVersion, MAX_MCP_LEGACY_BATCH_MESSAGES};
use crate::numeral;
use crate::numeral::{numeral_of, Base};
use crate::text::{chars_of, same};
use vstd::prelude::*;

verus! {

/// The method of an envelope, if it has one.
pub open spec fn method_of(envelope: EnvelopeModel) -> Option<Seq<char>> {
    match envelope {
        EnvelopeModel::Request(method, _) => Some(method),
        EnvelopeModel::Notification(method) => Some(method),
        _ => None,
    }
}

/// Whether a payload has an envelope with a method.
pub open spec fn contains_method(payload: PayloadModel, method: Seq<char>) -> bool {
    match payload {
        PayloadModel::Single(envelope) => method_of(envelope) == Some(method),
        PayloadModel::Batch(list) => exists|i: int|
            0 <= i < list.len() && method_of(#[trigger] list[i]) == Some(method),
    }
}

/// Whether a payload has a response.
pub open spec fn contains_response(payload: PayloadModel) -> bool {
    match payload {
        PayloadModel::Single(envelope) => envelope is Response,
        PayloadModel::Batch(list) => exists|i: int|
            0 <= i < list.len() && #[trigger] list[i] is Response,
    }
}

/// An invalid message.
pub open spec fn invalid(detail: Seq<char>) -> ErrorModel {
    jsonrpc::error_of(JsonRpcInspectionErrorKind::InvalidMessage, detail)
}

/// A violation of the profile of a revision.
pub open spec fn profile_violation(detail: Seq<char>) -> ErrorModel {
    jsonrpc::error_of(JsonRpcInspectionErrorKind::McpProfileViolation, detail)
}

/// A violation of the MCP lifecycle.
pub open spec fn lifecycle_violation(detail: Seq<char>) -> ErrorModel {
    jsonrpc::error_of(JsonRpcInspectionErrorKind::McpLifecycleViolation, detail)
}

/// The method of an envelope, if it has one.
pub fn envelope_method(envelope: &RpcEnvelope) -> (method: Option<&str>)
    ensures
        match method {
            Some(m) => method_of(envelope@) == Some(m@),
            None => method_of(envelope@) is None,
        },
{
    match envelope {
        RpcEnvelope::Request(method, _) => Some(method.as_str()),
        RpcEnvelope::Notification(method) => Some(method.as_str()),
        _ => None,
    }
}

fn envelope_has_method(envelope: &RpcEnvelope, expected: &str) -> (r: bool)
    ensures
        r == (method_of(envelope@) == Some(expected@)),
{
    match envelope_method(envelope) {
        Some(method) => same(method, expected),
        None => false,
    }
}

/// Whether a payload has an envelope with a method.
pub fn payload_contains_method(payload: &RpcPayload, expected: &str) -> (r: bool)
    ensures
        r == contains_method(payload@, expected@),
{
    match payload {
        RpcPayload::Single(envelope) => envelope_has_method(envelope, expected),
        RpcPayload::Batch(list) => {
            let ghost all = mcp_inspection::envelopes(list@);
            let mut i: usize = 0;
            while i < list.len()
                invariant
                    i <= list@.len(),
                    all == mcp_inspection::envelopes(list@),
                    payload@ == PayloadModel::Batch(all),
                    forall|k: int| 0 <= k < i ==> method_of(#[trigger] all[k]) != Some(expected@),
                decreases list@.len() - i,
            {
                assert(all[i as int] == list@[i as int]@);
                if envelope_has_method(&list[i], expected) {
                    return true;
                }
                i += 1;
            }
            false
        },
    }
}

/// Whether a payload has a response.
pub fn payload_has_response(payload: &RpcPayload) -> (r: bool)
    ensures
        r == contains_response(payload@),
{
    match payload {
        RpcPayload::Single(RpcEnvelope::Response) => true,
        RpcPayload::Single(_) => false,
        RpcPayload::Batch(list) => {
            let ghost all = mcp_inspection::envelopes(list@);
            let mut i: usize = 0;
            while i < list.len()
                invariant
                    i <= list@.len(),
                    all == mcp_inspection::envelopes(list@),
                    payload@ == PayloadModel::Batch(all),
                    forall|k: int| 0 <= k < i ==> !(#[trigger] all[k] is Response),
                decreases list@.len() - i,
            {
                assert(all[i as int] == list@[i as int]@);
                if let RpcEnvelope::Response = &list[i] {
                    return true;
                }
                i += 1;
            }
            false
        },
    }
}

/// What is known of a payload with an `initialize` method, given why its
/// params do not decode, if so.
pub open spec fn initialize_info(payload: PayloadModel, fault: Option<Seq<char>>) -> InfoModel {
    match payload {
        PayloadModel::Batch(_) => jsonrpc::rejection(
            true,
            lifecycle_violation("MCP `initialize` must be exactly one non-batched request"@),
        ),
        PayloadModel::Single(EnvelopeModel::Request(_, params)) => if params is None {
            jsonrpc::rejection(false, invalid("MCP `initialize` params are required"@))
        } else {
            match fault {
                Some(detail) => jsonrpc::rejection(
                    false,
                    invalid("invalid MCP `initialize` params: "@ + detail),
                ),
                None => jsonrpc::acceptance(
                    seq![
                        CallModel {
                            method: "initialize"@,
                            params: Map::empty(),
                            tool: None,
                            mcp_classification: Some(McpMethodClassification::Available),
                            is_notification: false,
                        },
                    ],
                    false,
                    false,
                    None,
                ),
            }
        },
        PayloadModel::Single(_) => jsonrpc::rejection(
            false,
            lifecycle_violation("MCP `initialize` must be a request with an id"@),
        ),
    }
}

/// The params of a single request, if it has any.
pub open spec fn request_params(payload: PayloadModel) -> Option<Json> {
    match payload {
        PayloadModel::Single(EnvelopeModel::Request(_, params)) => params,
        _ => None,
    }
}

/// Why the params of a single request do not decode as initialize params, if
/// it has params that do not.
pub open spec fn request_params_fault(payload: PayloadModel) -> Option<Seq<char>> {
    match request_params(payload) {
        Some(params) => mcp_inspection::initialize_params_fault(params),
        None => None,
    }
}

/// Judges a payload with an `initialize` method, given why its params do not
/// decode, if so.
pub fn judge_mcp_initialize(payload: &RpcPayload, fault: Option<String>) -> (info:
    JsonRpcRequestInfo)
    ensures
        info@ == initialize_info(payload@, jsonrpc::text_of(fault)),
{
    match payload {
        RpcPayload::Batch(_) => JsonRpcRequestInfo::rejected(
            true,
            JsonRpcInspectionError::mcp_lifecycle_violation(
                "MCP `initialize` must be exactly one non-batched request".to_string(),
            ),
        ),
        RpcPayload::Single(RpcEnvelope::Request(_, params)) => {
            if params.is_none() {
                return JsonRpcRequestInfo::rejected(
                    false,
                    JsonRpcInspectionError::invalid_message(
                        "MCP `initialize` params are required".to_string(),
                    ),
                );
            }
            if let Some(detail) = fault {
                let mut text = "invalid MCP `initialize` params: ".to_string();
                text.append(detail.as_str());
                return JsonRpcRequestInfo::rejected(
                    false,
                    JsonRpcInspectionError::invalid_message(text),
                );
            }
            let mut calls: Vec<JsonRpcCallInfo> = Vec::new();
            let call = JsonRpcCallInfo {
                method: "initialize".to_string(),
                params: PolicyParams::new(),
                tool: None,
                mcp_classification: Some(McpMethodClassification::Available),
                is_notification: false,
            };
            let ghost model = call@;
            calls.push(call);
            assert(jsonrpc::calls_of(calls@) == seq![model]);
            JsonRpcRequestInfo::accepted(calls, false, false, None)
        },
        RpcPayload::Single(_) => JsonRpcRequestInfo::rejected(
            false,
            JsonRpcInspectionError::mcp_lifecycle_violation(
                "MCP `initialize` must be a request with an id".to_string(),
            ),
        ),
    }
}

/// Inspects a payload with an `initialize` method. The client's proposal
/// selects no revision.
pub fn parse_mcp_initialize(payload: &RpcPayload) -> (info: JsonRpcRequestInfo)
    ensures
        info@ == initialize_info(payload@, request_params_fault(payload@)),
{
    let fault = match payload {
        RpcPayload::Single(RpcEnvelope::Request(_, Some(params))) => check_initialize_params(
            params,
        ),
        _ => None,
    };
    judge_mcp_initialize(payload, fault)
}

/// The error of a batch that the profile of a revision rejects, if it does.
pub open spec fn batch_fault(payload: PayloadModel, revision: McpProtocolVersion) -> Option<
    ErrorModel,
> {
    match payload {
        PayloadModel::Batch(list) => if !revision.permits_batches() {
            Some(
                profile_violation(
                    "MCP "@ + revision.date() + " does not permit top-level JSON-RPC batches"@,
                ),
            )
        } else if list.len() > MAX_MCP_LEGACY_BATCH_MESSAGES {
            Some(
                profile_violation(
                    "MCP "@ + revision.date() + " batch contains "@ + numeral::numeral(
                        list.len(),
                        Base::Decimal,
                    ) + " messages; the maximum is "@ + numeral::numeral(
                        MAX_MCP_LEGACY_BATCH_MESSAGES as nat,
                        Base::Decimal,
                    ),
                ),
            )
        } else {
            None
        },
        PayloadModel::Single(_) => None,
    }
}

/// Holds a payload to the batch rules of a revision.
pub fn check_batch_profile(payload: &RpcPayload, revision: McpProtocolVersion) -> (r: Option<
    JsonRpcInspectionError,
>)
    ensures
        match r {
            Some(error) => batch_fault(payload@, revision) == Some(error@),
            None => batch_fault(payload@, revision) is None,
        },
{
    let list = match payload {
        RpcPayload::Batch(list) => list,
        RpcPayload::Single(_) => {
            return None;
        },
    };
    let mut detail = "MCP ".to_string();
    detail.append(revision.as_str());
    if !revision.allows_json_rpc_batches() {
        detail.append(" does not permit top-level JSON-RPC batches");
        return Some(JsonRpcInspectionError::mcp_profile_violation(detail));
    }
    if list.len() > MAX_MCP_LEGACY_BATCH_MESSAGES {
        detail.append(" batch contains ");
        detail.append(numeral_of(list.len() as u64, Base::Decimal).as_str());
        detail.append(" messages; the maximum is ");
        detail.append(
            numeral_of(MAX_MCP_LEGACY_BATCH_MESSAGES as u64, Base::Decimal).as_str(),
        );
        return Some(JsonRpcInspectionError::mcp_profile_violation(detail));
    }
    None
}

/// The inspection error of an MCP failure.
pub open spec fn failure_error(failure: FailureModel) -> ErrorModel {
    match failure.kind {
        McpFailureKind::InitializeInBatch => lifecycle_violation(failure.detail),
        McpFailureKind::JsonRpc | McpFailureKind::MessageKindMismatch
        | McpFailureKind::MissingParams | McpFailureKind::InvalidParams => invalid(failure.detail),
        _ => profile_violation(failure.detail),
    }
}

/// Maps an MCP failure to an inspection error.
pub fn map_mcp_inspection_error(failure: McpFailure) -> (error: JsonRpcInspectionError)
    ensures
        error@ == failure_error(failure@),
{
    match failure.kind {
        McpFailureKind::InitializeInBatch => JsonRpcInspectionError::mcp_lifecycle_violation(
            failure.detail,
        ),
        McpFailureKind::JsonRpc
        | McpFailureKind::MessageKindMismatch
        | McpFailureKind::MissingParams
        | McpFailureKind::InvalidParams => JsonRpcInspectionError::invalid_message(failure.detail),
        _ => JsonRpcInspectionError::mcp_profile_violation(failure.detail),
    }
}

/// The error of a method that a revision does not make available, if so.
pub open spec fn method_fault(method: MethodModel, revision: McpProtocolVersion) -> Option<
    ErrorModel,
> {
    match method.availability {
        MethodAvailability::Available | MethodAvailability::Extension => None,
        MethodAvailability::Unavailable => Some(
            profile_violation(
                "MCP "@ + revision.date() + " does not make `"@ + method.method + "` available"@,
            ),
        ),
        MethodAvailability::Unsupported => Some(
            profile_violation(
                "MCP "@ + revision.date() + " returned an unsupported classification for `"@
                    + method.method + "`"@,
            ),
        ),
    }
}

fn check_method(method: &InspectedMethod, revision: McpProtocolVersion) -> (r: Option<
    JsonRpcInspectionError,
>)
    ensures
        match r {
            Some(error) => method_fault(method@, revision) == Some(error@),
            None => method_fault(method@, revision) is None,
        },
{
    let mut detail = "MCP ".to_string();
    detail.append(revision.as_str());
    match method.availability {
        MethodAvailability::Available | MethodAvailability::Extension => None,
        MethodAvailability::Unavailable => {
            detail.append(" does not make `");
            detail.append(method.method.as_str());
            detail.append("` available");
            Some(JsonRpcInspectionError::mcp_profile_violation(detail))
        },
        MethodAvailability::Unsupported => {
            detail.append(" returned an unsupported classification for `");
            detail.append(method.method.as_str());
            detail.append("`");
            Some(JsonRpcInspectionError::mcp_profile_violation(detail))
        },
    }
}

/// The error of the first method that a revision does not make available, if
/// there is one.
pub open spec fn first_method_fault(
    methods: Seq<MethodModel>,
    revision: McpProtocolVersion,
) -> Option<ErrorModel>
    decreases methods.len(),
{
    if methods.len() == 0 {
        None
    } else {
        match method_fault(methods[0], revision) {
            Some(error) => Some(error),
            None => first_method_fault(methods.skip(1), revision),
        }
    }
}

/// What an inspection found, with its failure mapped and its methods checked
/// to be available.
pub open spec fn checked_methods(
    found: Result<Seq<MethodModel>, FailureModel>,
    revision: McpProtocolVersion,
) -> Result<Seq<MethodModel>, ErrorModel> {
    match found {
        Err(failure) => Err(failure_error(failure)),
        Ok(methods) => match first_method_fault(methods, revision) {
            Some(error) => Err(error),
            None => Ok(methods),
        },
    }
}

/// Holds what an inspection found to the methods of a revision.
pub fn check_methods(
    found: Result<Vec<InspectedMethod>, McpFailure>,
    revision: McpProtocolVersion,
) -> (r: Result<Vec<InspectedMethod>, JsonRpcInspectionError>)
    ensures
        match r {
            Ok(methods) => checked_methods(mcp_inspection::methods_outcome(found), revision)
                == Ok::<Seq<MethodModel>, ErrorModel>(mcp_inspection::methods_of(methods@)),
            Err(error) => checked_methods(mcp_inspection::methods_outcome(found), revision)
                == Err::<Seq<MethodModel>, ErrorModel>(error@),
        },
{
    let methods = match found {
        Ok(methods) => methods,
        Err(failure) => {
            return Err(map_mcp_inspection_error(failure));
        },
    };
    let ghost all = mcp_inspection::methods_of(methods@);
    let mut i: usize = 0;
    assert(all.skip(0) == all);
    while i < methods.len()
        invariant
            i <= methods@.len(),
            all == mcp_inspection::methods_of(methods@),
            mcp_inspection::methods_outcome(found) == Ok::<Seq<MethodModel>, FailureModel>(all),
            first_method_fault(all, revision) == first_method_fault(all.skip(i as int), revision),
        decreases methods@.len() - i,
    {
        assert(all.skip(i as int)[0] == methods@[i as int]@);
        assert(all.skip(i as int).skip(1) == all.skip(i + 1));
        if let Some(error) = check_method(&methods[i], revision) {
            return Err(error);
        }
        i += 1;
    }
    Ok(methods)
}

/// The methods of a payload under an exact revision, or why it is rejected.
pub open spec fn revision_methods(
    value: Json,
    payload: PayloadModel,
    revision: McpProtocolVersion,
    direction: McpDirection,
) -> Result<Seq<MethodModel>, ErrorModel> {
    match batch_fault(payload, revision) {
        Some(error) => Err(error),
        None => checked_methods(
            mcp_inspection::mcp_inspection(value, revision.date(), direction),
            revision,
        ),
    }
}

/// Inspects one payload under an exact MCP revision: its batch shape and
/// bound, the params of its methods, their direction and availability.
/// `payload` is the payload of `value`.
pub fn inspect_mcp_payload_for_revision(
    value: &JsonValue,
    payload: &RpcPayload,
    revision: McpProtocolVersion,
    direction: McpDirection,
) -> (r: Result<Vec<InspectedMethod>, JsonRpcInspectionError>)
    ensures
        match r {
            Ok(methods) => revision_methods(value@, payload@, revision, direction) == Ok::<
                Seq<MethodModel>,
                ErrorModel,
            >(mcp_inspection::methods_of(methods@)),
            Err(error) => revision_methods(value@, payload@, revision, direction) == Err::<
                Seq<MethodModel>,
                ErrorModel,
            >(error@),
        },
{
    if let Some(error) = check_batch_profile(payload, revision) {
        return Err(error);
    }
    check_methods(inspect_revision(value, revision.as_str(), direction), revision)
}

/// Whether a character may stand in a strict tool name.
pub open spec fn is_tool_char(c: char) -> bool {
    ||| 'a' <= c && c <= 'z'
    ||| 'A' <= c && c <= 'Z'
    ||| '0' <= c && c <= '9'
    ||| c == '_'
    ||| c == '-'
    ||| c == '.'
}

/// Whether a tool name keeps to the recommended characters and length.
pub open spec fn is_strict_tool_name(name: Seq<char>) -> bool {
    1 <= name.len() <= 128 && forall|i: int| 0 <= i < name.len() ==> is_tool_char(#[trigger] name[i])
}

/// The diagnostic of a tool name that does not.
pub open spec fn tool_name_fault() -> Seq<char> {
    "MCP tool name must match ^[A-Za-z0-9_.-]{1,128}$ when strict_tool_names is enabled"@
}

/// Holds a tool name to the recommended characters and length.
pub fn validate_mcp_tool_name(name: &str) -> (r: Result<(), String>)
    ensures
        match r {
            Ok(_) => is_strict_tool_name(name@),
            Err(fault) => !is_strict_tool_name(name@) && fault@ == tool_name_fault(),
        },
{
    let chars = chars_of(name);
    let mut strict = chars.len() >= 1 && chars.len() <= 128;
    let mut i: usize = 0;
    while strict && i < chars.len()
        invariant
            i <= chars@.len(),
            chars@ == name@,
            strict ==> 1 <= chars@.len() <= 128,
            strict ==> forall|k: int| 0 <= k < i ==> is_tool_char(#[trigger] chars@[k]),
            !strict ==> !is_strict_tool_name(name@),
        decreases chars@.len() - i,
    {
        let c = chars[i];
        strict = ('a' <= c && c <= 'z') || ('A' <= c && c <= 'Z') || ('0' <= c && c <= '9') || c
            == '_' || c == '-' || c == '.';
        assert(c == name@[i as int]);
        i += 1;
    }
    if strict {
        Ok(())
    } else {
        Err(
            "MCP tool name must match ^[A-Za-z0-9_.-]{1,128}$ when strict_tool_names is enabled".to_string(),
        )
    }
}

/// The envelope of an inspected method, if the payload has it.
pub open spec fn method_envelope(payload: PayloadModel, batch_index: Option<usize>) -> Option<
    EnvelopeModel,
> {
    match (payload, batch_index) {
        (PayloadModel::Single(envelope), None) => Some(envelope),
        (PayloadModel::Batch(list), Some(index)) => if index < list.len() {
            Some(list[index as int])
        } else {
            None
        },
        _ => None,
    }
}

/// The tool that a method of a payload names, or why it names none.
pub open spec fn method_tool(payload: PayloadModel, method: MethodModel) -> Result<
    Option<Seq<char>>,
    Seq<char>,
> {
    if method.method != "tools/call"@ {
        Ok(None)
    } else {
        match method_envelope(payload, method.batch_index) {
            None => Err("inspected MCP method is missing its JSON-RPC envelope"@),
            Some(EnvelopeModel::Request(name, params)) => match mcp_inspection::called_tool(
                name,
                params,
            ) {
                Ok(tool) => Ok(tool),
                Err(detail) => Err("invalid MCP `tools/call` params: "@ + detail),
            },
            Some(_) => Err("MCP `tools/call` must be a request with an id"@),
        }
    }
}

/// Finds the tool that a method of a payload names.
pub fn mcp_tool_for_inspected_method(payload: &RpcPayload, method: &InspectedMethod) -> (r: Result<
    Option<String>,
    String,
>)
    ensures
        mcp_inspection::tool_outcome(r) == method_tool(payload@, method@),
{
    if !same(method.method.as_str(), "tools/call") {
        return Ok(None);
    }
    let envelope = match (payload, method.batch_index) {
        (RpcPayload::Single(envelope), None) => envelope,
        (RpcPayload::Batch(list), Some(index)) if index < list.len() => {
            assert(payload@->Batch_0[index as int] == list@[index as int]@);
            &list[index]
        },
        _ => {
            return Err("inspected MCP method is missing its JSON-RPC envelope".to_string());
        },
    };
    match envelope {
        RpcEnvelope::Request(name, params) => match tool_of_call(name.as_str(), params) {
            Ok(tool) => Ok(tool),
            Err(detail) => {
                let mut text = "invalid MCP `tools/call` params: ".to_string();
                text.append(detail.as_str());
                Err(text)
            },
        },
        _ => Err("MCP `tools/call` must be a request with an id".to_string()),
    }
}

/// An inspected method with the outcome of the lookup of its tool.
#[derive(Debug)]
pub struct InspectedCall {
    pub method: InspectedMethod,
    pub tool: Result<Option<String>, String>,
}

/// What an [`InspectedCall`] denotes.
#[verifier::ext_equal]
pub struct InspectedCallModel {
    pub method: MethodModel,
    pub tool: Result<Option<Seq<char>>, Seq<char>>,
}

impl View for InspectedCall {
    type V = InspectedCallModel;

    open spec fn view(&self) -> InspectedCallModel {
        InspectedCallModel {
            method: self.method@,
            tool: mcp_inspection::tool_outcome(self.tool),
        }
    }
}

/// What a list of inspected calls denotes.
pub open spec fn inspected_calls(list: Seq<InspectedCall>) -> Seq<InspectedCallModel> {
    list.map_values(|call: InspectedCall| call@)
}

/// The call of an inspected method, or why it is rejected.
pub open spec fn call_of(
    call: InspectedCallModel,
    strict: bool,
    revision: McpProtocolVersion,
) -> Result<CallModel, ErrorModel> {
    match call.tool {
        Err(detail) => Err(invalid(detail)),
        Ok(tool) => if strict && (tool matches Some(name) && !is_strict_tool_name(name)) {
            Err(invalid(tool_name_fault()))
        } else {
            match method_fault(call.method, revision) {
                Some(error) => Err(error),
                None => Ok(
                    CallModel {
                        method: call.method.method,
                        params: jsonrpc::tool_params(tool),
                        tool,
                        mcp_classification: Some(
                            if call.method.availability == MethodAvailability::Available {
                                McpMethodClassification::Available
                            } else {
                                McpMethodClassification::Extension
                            },
                        ),
                        is_notification: call.method.is_notification,
                    },
                ),
            }
        },
    }
}

/// The calls of inspected methods, or why the first rejected one is rejected.
pub open spec fn calls_from(
    list: Seq<InspectedCallModel>,
    strict: bool,
    revision: McpProtocolVersion,
) -> Result<Seq<CallModel>, ErrorModel>
    decreases list.len(),
{
    if list.len() == 0 {
        Ok(seq![])
    } else {
        match calls_from(list.drop_last(), strict, revision) {
            Err(error) => Err(error),
            Ok(calls) => match call_of(list.last(), strict, revision) {
                Ok(call) => Ok(calls.push(call)),
                Err(error) => Err(error),
            },
        }
    }
}

/// An error in the first calls stays the error of them all.
proof fn lemma_calls_from_prefix(
    list: Seq<InspectedCallModel>,
    strict: bool,
    revision: McpProtocolVersion,
    n: int,
)
    requires
        0 <= n <= list.len(),
        calls_from(list.take(n), strict, revision) is Err,
    ensures
        calls_from(list, strict, revision) == calls_from(list.take(n), strict, revision),
    decreases list.len(),
{
    if n < list.len() {
        assert(list.drop_last().take(n) == list.take(n));
        lemma_calls_from_prefix(list.drop_last(), strict, revision, n);
    } else {
        assert(list.take(n) == list);
    }
}

/// Makes the call of an inspected method.
pub fn mcp_call(call: &InspectedCall, strict: bool, revision: McpProtocolVersion) -> (r: Result<
    JsonRpcCallInfo,
    JsonRpcInspectionError,
>)
    ensures
        match r {
            Ok(info) => call_of(call@, strict, revision) == Ok::<CallModel, ErrorModel>(info@),
            Err(error) => call_of(call@, strict, revision) == Err::<CallModel, ErrorModel>(error@),
        },
{
    let tool = match &call.tool {
        Ok(tool) => tool,
        Err(detail) => {
            return Err(JsonRpcInspectionError::invalid_message(detail.clone()));
        },
    };
    if strict {
        if let Some(name) = tool {
            if let Err(fault) = validate_mcp_tool_name(name.as_str()) {
                return Err(JsonRpcInspectionError::invalid_message(fault));
            }
        }
    }
    if let Some(error) = check_method(&call.method, revision) {
        return Err(error);
    }
    let classification = match call.method.availability {
        MethodAvailability::Available => McpMethodClassification::Available,
        _ => McpMethodClassification::Extension,
    };
    let params = match tool {
        Some(name) => mcp_policy_params(Some(name.as_str())),
        None => mcp_policy_params(None),
    };
    let tool = match tool {
        Some(name) => Some(name.clone()),
        None => None,
    };
    Ok(
        JsonRpcCallInfo {
            method: call.method.method.clone(),
            params,
            tool,
            mcp_classification: Some(classification),
            is_notification: call.method.is_notification,
        },
    )
}

/// What is known of a payload whose methods and tools were inspected.
pub open spec fn inspected_info(
    payload: PayloadModel,
    list: Seq<InspectedCallModel>,
    strict: bool,
    revision: McpProtocolVersion,
) -> InfoModel {
    match calls_from(list, strict, revision) {
        Ok(calls) => jsonrpc::acceptance(
            calls,
            payload is Batch,
            contains_response(payload),
            Some(revision),
        ),
        Err(error) => jsonrpc::rejection(payload is Batch, error),
    }
}

fn is_batch(payload: &RpcPayload) -> (r: bool)
    ensures
        r == (payload@ is Batch),
{
    match payload {
        RpcPayload::Batch(_) => true,
        RpcPayload::Single(_) => false,
    }
}

/// Puts together what is known of a payload whose methods and tools were
/// inspected.
pub fn judge_mcp_calls(
    payload: &RpcPayload,
    list: &Vec<InspectedCall>,
    strict: bool,
    revision: McpProtocolVersion,
) -> (info: JsonRpcRequestInfo)
    ensures
        info@ == inspected_info(payload@, inspected_calls(list@), strict, revision),
{
    let ghost all = inspected_calls(list@);
    let mut calls: Vec<JsonRpcCallInfo> = Vec::new();
    let mut i: usize = 0;
    assert(jsonrpc::calls_of(calls@) == Seq::<CallModel>::empty());
    assert(calls_from(all.take(0), strict, revision) == Ok::<Seq<CallModel>, ErrorModel>(
        jsonrpc::calls_of(calls@),
    ));
    while i < list.len()
        invariant
            i <= list@.len(),
            all == inspected_calls(list@),
            calls_from(all.take(i as int), strict, revision) == Ok::<Seq<CallModel>, ErrorModel>(
                jsonrpc::calls_of(calls@),
            ),
        decreases list@.len() - i,
    {
        assert(all.take(i + 1).drop_last() == all.take(i as int));
        assert(all.take(i + 1).last() == list@[i as int]@);
        match mcp_call(&list[i], strict, revision) {
            Ok(call) => {
                let ghost before = jsonrpc::calls_of(calls@);
                calls.push(call);
                assert(jsonrpc::calls_of(calls@) == before.push(call@));
            },
            Err(error) => {
                proof {
                    lemma_calls_from_prefix(all, strict, revision, i + 1);
                }
                return JsonRpcRequestInfo::rejected(is_batch(payload), error);
            },
        }
        i += 1;
    }
    assert(all.take(i as int) == all);
    JsonRpcRequestInfo::accepted(
        calls,
        is_batch(payload),
        payload_has_response(payload),
        Some(revision),
    )
}

/// The methods of a payload with the tools that they name.
pub open spec fn with_tools(payload: PayloadModel, methods: Seq<MethodModel>) -> Seq<
    InspectedCallModel,
> {
    methods.map_values(
        |method: MethodModel|
            InspectedCallModel { method, tool: method_tool(payload, method) },
    )
}

/// Looks the tools of inspected methods up.
fn find_tools(payload: &RpcPayload, methods: Vec<InspectedMethod>) -> (list: Vec<InspectedCall>)
    ensures
        inspected_calls(list@) == with_tools(payload@, mcp_inspection::methods_of(methods@)),
{
    let ghost all = mcp_inspection::methods_of(methods@);
    let mut list: Vec<InspectedCall> = Vec::new();
    let mut i: usize = 0;
    while i < methods.len()
        invariant
            i <= methods@.len(),
            all == mcp_inspection::methods_of(methods@),
            inspected_calls(list@) == with_tools(payload@, all).take(i as int),
        decreases methods@.len() - i,
    {
        let tool = mcp_tool_for_inspected_method(payload, &methods[i]);
        let method = InspectedMethod {
            method: methods[i].method.clone(),
            is_notification: methods[i].is_notification,
            availability: methods[i].availability,
            batch_index: methods[i].batch_index,
        };
        let ghost before = inspected_calls(list@);
        let call = InspectedCall { method, tool };
        list.push(call);
        assert(inspected_calls(list@) == before.push(call@));
        assert(all[i as int] == methods@[i as int]@);
        assert(with_tools(payload@, all).take(i + 1) == before.push(call@));
        i += 1;
    }
    assert(with_tools(payload@, all).take(i as int) == with_tools(payload@, all));
    list
}

/// What is known of an MCP payload.
pub open spec fn mcp_info(value: Json, options: JsonRpcInspectionOptions) -> InfoModel {
    match mcp_inspection::json_rpc_payload(value) {
        Err(detail) => jsonrpc::rejection(value is Array, invalid(detail)),
        Ok(payload) => if contains_method(payload, "initialize"@) {
            initialize_info(payload, request_params_fault(payload))
        } else {
            match options.mcp_revision {
                None => jsonrpc::rejection(
                    payload is Batch,
                    jsonrpc::error_of(
                        JsonRpcInspectionErrorKind::RevisionNotSelected,
                        "MCP effective protocol revision has not been selected"@,
                    ),
                ),
                Some(revision) => match revision_methods(
                    value,
                    payload,
                    revision,
                    McpDirection::ClientToServer,
                ) {
                    Err(error) => jsonrpc::rejection(payload is Batch, error),
                    Ok(methods) => inspected_info(
                        payload,
                        with_tools(payload, methods),
                        options.mcp_strict_tool_names,
                        revision,
                    ),
                },
            }
        },
    }
}

/// Inspects an MCP payload. `initialize` is the exchange that chooses a
/// revision, so it comes before the selected revision is required.
pub fn parse_mcp_payload(value: &JsonValue, options: JsonRpcInspectionOptions) -> (info:
    JsonRpcRequestInfo)
    ensures
        info@ == mcp_info(value@, options),
        info@.is_batch == (value@ is Array),
{
    let payload = match inspect_json_rpc(value) {
        Ok(payload) => payload,
        Err(detail) => {
            return JsonRpcRequestInfo::rejected(
                value.is_array(),
                JsonRpcInspectionError::invalid_message(detail),
            );
        },
    };
    if payload_contains_method(&payload, "initialize") {
        return parse_mcp_initialize(&payload);
    }
    let revision = match options.mcp_revision {
        Some(revision) => revision,
        None => {
            return JsonRpcRequestInfo::rejected(
                is_batch(&payload),
                JsonRpcInspectionError::revision_not_selected(),
            );
        },
    };
    let methods = match inspect_mcp_payload_for_revision(
        value,
        &payload,
        revision,
        McpDirection::ClientToServer,
    ) {
        Ok(methods) => methods,
        Err(error) => {
            return JsonRpcRequestInfo::rejected(is_batch(&payload), error);
        },
    };
    let calls = find_tools(&payload, methods);
    judge_mcp_calls(&payload, &calls, options.mcp_strict_tool_names, revision)
}

} // verus!
