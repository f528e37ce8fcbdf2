//! JSON-RPC 2.0 over HTTP inspection.

use crate::bytes;
use crate::bytes::{find_head_end, slice, utf8_text_lossy};
use crate::json;
use crate::json::{Json, JsonValue};
use crate::l7::duplicate;
use crate::l7::duplicate::find_duplicate;
use crate::l7::mcp_payload;
use crate::l7::mcp_payload::parse_mcp_payload;
use crate::l7::protocol::{L7Protocol, McpProtocolVersion};
use crate::l7::provider::{BodyLength, L7Request};
use crate::text;
use crate::text::{
    lines_of, part_before, same, same_ignoring_case, split_at_first, split_parts, trimmed, CharClass,
};
use vstd::prelude::*;

verus! {

broadcast use json::group_json_views;

/// The greatest body that is buffered for inspection.
pub const DEFAULT_MAX_BODY_BYTES: usize = 65536;

/// Selects whether a message is treated as generic JSON-RPC 2.0 or as an MCP
/// message whose method and params are validated.
#[derive(Debug, Clone, Copy, PartialEq, Eq, Structural)]
pub enum JsonRpcInspectionMode {
    JsonRpc,
    Mcp,
}

impl JsonRpcInspectionMode {
    /// The mode for the protocol of an endpoint.
    pub fn for_protocol(protocol: L7Protocol) -> (mode: Self)
        ensures
            mode == if protocol == L7Protocol::Mcp {
                JsonRpcInspectionMode::Mcp
            } else {
                JsonRpcInspectionMode::JsonRpc
            },
    {
        match protocol {
            L7Protocol::Mcp => JsonRpcInspectionMode::Mcp,
            _ => JsonRpcInspectionMode::JsonRpc,
        }
    }
}

/// Settings of the JSON-RPC-family parser for one endpoint.
#[derive(Debug, Clone, Copy, PartialEq, Eq, Structural)]
pub struct JsonRpcInspectionOptions {
    /// Generic JSON-RPC or MCP inspection.
    pub mode: JsonRpcInspectionMode,
    /// Enforce the recommended characters and length of MCP tool names.
    pub mcp_strict_tool_names: bool,
    /// The revision that the HTTP transport selected for MCP traffic. Without
    /// one only an `initialize` request is accepted.
    pub mcp_revision: Option<McpProtocolVersion>,
}

impl JsonRpcInspectionOptions {
    /// Options for an endpoint of a protocol. A policy declares allowed
    /// revisions, so none is selected yet.
    pub fn for_config(protocol: L7Protocol, mcp_strict_tool_names: bool) -> (options: Self)
        ensures
            options.mode == if protocol == L7Protocol::Mcp {
                JsonRpcInspectionMode::Mcp
            } else {
                JsonRpcInspectionMode::JsonRpc
            },
            options.mcp_strict_tool_names == mcp_strict_tool_names,
            options.mcp_revision is None,
    {
        JsonRpcInspectionOptions {
            mode: JsonRpcInspectionMode::for_protocol(protocol),
            mcp_strict_tool_names,
            mcp_revision: None,
        }
    }

    /// Options for an initial MCP `initialize` request.
    #[must_use]
    pub fn mcp_bootstrap(strict_tool_names: bool) -> (options: Self)
        ensures
            options.mode == JsonRpcInspectionMode::Mcp,
            options.mcp_strict_tool_names == strict_tool_names,
            options.mcp_revision is None,
    {
        JsonRpcInspectionOptions {
            mode: JsonRpcInspectionMode::Mcp,
            mcp_strict_tool_names: strict_tool_names,
            mcp_revision: None,
        }
    }

    /// Options for one selected MCP revision.
    #[must_use]
    pub fn mcp_selected(revision: McpProtocolVersion, strict_tool_names: bool) -> (options: Self)
        ensures
            options.mode == JsonRpcInspectionMode::Mcp,
            options.mcp_strict_tool_names == strict_tool_names,
            options.mcp_revision == Some(revision),
    {
        JsonRpcInspectionOptions {
            mode: JsonRpcInspectionMode::Mcp,
            mcp_strict_tool_names: strict_tool_names,
            mcp_revision: Some(revision),
        }
    }

    /// The same options with a selected MCP revision.
    #[must_use]
    pub fn with_mcp_revision(self, revision: McpProtocolVersion) -> (options: Self)
        ensures
            options.mode == self.mode,
            options.mcp_strict_tool_names == self.mcp_strict_tool_names,
            options.mcp_revision == Some(revision),
    {
        JsonRpcInspectionOptions {
            mode: self.mode,
            mcp_strict_tool_names: self.mcp_strict_tool_names,
            mcp_revision: Some(revision),
        }
    }

    /// The options of a mode alone: strict tool names, no selected revision.
    pub fn for_mode(mode: JsonRpcInspectionMode) -> (options: Self)
        ensures
            options == mode_options(mode),
    {
        JsonRpcInspectionOptions { mode, mcp_strict_tool_names: true, mcp_revision: None }
    }
}

/// The options of a mode alone.
pub open spec fn mode_options(mode: JsonRpcInspectionMode) -> JsonRpcInspectionOptions {
    JsonRpcInspectionOptions { mode, mcp_strict_tool_names: true, mcp_revision: None }
}

impl From<JsonRpcInspectionMode> for JsonRpcInspectionOptions {
    fn from(mode: JsonRpcInspectionMode) -> (options: Self) {
        JsonRpcInspectionOptions::for_mode(mode)
    }
}

impl vstd::std_specs::convert::FromSpecImpl<JsonRpcInspectionMode> for JsonRpcInspectionOptions {
    open spec fn obeys_from_spec() -> bool {
        true
    }

    open spec fn from_spec(mode: JsonRpcInspectionMode) -> Self {
        mode_options(mode)
    }
}

/// Kind of failure found while inspecting a JSON-RPC-family message.
#[derive(Debug, Clone, Copy, PartialEq, Eq, Structural)]
#[non_exhaustive]
pub enum JsonRpcInspectionErrorKind {
    /// The request body is not valid JSON.
    InvalidJson,
    /// The decoded JSON fails message validation.
    InvalidMessage,
    /// MCP traffic lacked the selected revision that inspection requires.
    RevisionNotSelected,
    /// The selected MCP revision rejected the body.
    McpProfileViolation,
    /// An MCP lifecycle message appeared in a forbidden shape.
    McpLifecycleViolation,
}

/// Inspection failure: a kind and its diagnostic.
#[derive(Debug, PartialEq, Eq)]
pub struct JsonRpcInspectionError {
    kind: JsonRpcInspectionErrorKind,
    detail: String,
}

/// What a [`JsonRpcInspectionError`] denotes.
#[verifier::ext_equal]
pub struct ErrorModel {
    pub kind: JsonRpcInspectionErrorKind,
    pub detail: Seq<char>,
}

impl View for JsonRpcInspectionError {
    type V = ErrorModel;

    closed spec fn view(&self) -> ErrorModel {
        ErrorModel { kind: self.kind, detail: self.detail@ }
    }
}

/// An error of a kind with a diagnostic.
pub open spec fn error_of(kind: JsonRpcInspectionErrorKind, detail: Seq<char>) -> ErrorModel {
    ErrorModel { kind, detail }
}

impl JsonRpcInspectionError {
    /// The body is no JSON.
    pub fn invalid_json() -> (error: Self)
        ensures
            error@ == error_of(JsonRpcInspectionErrorKind::InvalidJson, "invalid JSON"@),
    {
        JsonRpcInspectionError {
            kind: JsonRpcInspectionErrorKind::InvalidJson,
            detail: "invalid JSON".to_string(),
        }
    }

    /// The body is no acceptable JSON, for the given reason.
    pub fn invalid_json_with_detail(detail: String) -> (error: Self)
        ensures
            error@ == error_of(JsonRpcInspectionErrorKind::InvalidJson, detail@),
    {
        JsonRpcInspectionError { kind: JsonRpcInspectionErrorKind::InvalidJson, detail }
    }

    /// The message is invalid.
    pub fn invalid_message(detail: String) -> (error: Self)
        ensures
            error@ == error_of(JsonRpcInspectionErrorKind::InvalidMessage, detail@),
    {
        JsonRpcInspectionError { kind: JsonRpcInspectionErrorKind::InvalidMessage, detail }
    }

    /// No MCP revision was selected.
    pub fn revision_not_selected() -> (error: Self)
        ensures
            error@ == error_of(
                JsonRpcInspectionErrorKind::RevisionNotSelected,
                "MCP effective protocol revision has not been selected"@,
            ),
    {
        JsonRpcInspectionError {
            kind: JsonRpcInspectionErrorKind::RevisionNotSelected,
            detail: "MCP effective protocol revision has not been selected".to_string(),
        }
    }

    /// The selected revision rejects the body.
    pub fn mcp_profile_violation(detail: String) -> (error: Self)
        ensures
            error@ == error_of(JsonRpcInspectionErrorKind::McpProfileViolation, detail@),
    {
        JsonRpcInspectionError { kind: JsonRpcInspectionErrorKind::McpProfileViolation, detail }
    }

    /// A lifecycle message has a forbidden shape.
    pub fn mcp_lifecycle_violation(detail: String) -> (error: Self)
        ensures
            error@ == error_of(JsonRpcInspectionErrorKind::McpLifecycleViolation, detail@),
    {
        JsonRpcInspectionError { kind: JsonRpcInspectionErrorKind::McpLifecycleViolation, detail }
    }

    /// The failure kind, for control flow.
    #[must_use]
    pub fn kind(&self) -> (kind: JsonRpcInspectionErrorKind)
        ensures
            kind == self@.kind,
    {
        self.kind
    }

    /// The human-readable diagnostic.
    #[must_use]
    pub fn detail(&self) -> (detail: &str)
        ensures
            detail@ == self@.detail,
    {
        self.detail.as_str()
    }

    /// The denial reason of the proxy for this failure.
    pub fn rejection_reason(&self) -> (reason: String)
        ensures
            reason@ == "JSON-RPC request rejected: "@ + self@.detail,
    {
        let mut reason = "JSON-RPC request rejected: ".to_string();
        reason.append(self.detail.as_str());
        reason
    }
}

/// Classification of an accepted MCP method.
///
/// Known methods that the selected revision lacks are rejected before a call
/// is produced.
#[derive(Debug, Clone, Copy, PartialEq, Eq, Structural)]
#[non_exhaustive]
pub enum McpMethodClassification {
    /// A core method of the selected revision.
    Available,
    /// A method that no supported core profile knows.
    Extension,
}

/// Policy-visible params of a call: at most one value for each name.
#[derive(Debug, PartialEq, Eq)]
pub struct PolicyParams {
    name: Option<String>,
}

impl View for PolicyParams {
    type V = Map<Seq<char>, Seq<char>>;

    closed spec fn view(&self) -> Map<Seq<char>, Seq<char>> {
        match self.name {
            Some(tool) => map!["name"@ => tool@],
            None => Map::empty(),
        }
    }
}

/// The params that show a tool name to policy.
pub open spec fn tool_params(tool: Option<Seq<char>>) -> Map<Seq<char>, Seq<char>> {
    match tool {
        Some(name) => map!["name"@ => name],
        None => Map::empty(),
    }
}

impl PolicyParams {
    /// No params.
    pub fn new() -> (params: Self)
        ensures
            params@ == Map::<Seq<char>, Seq<char>>::empty(),
    {
        PolicyParams { name: None }
    }

    /// The value of a param.
    pub fn get(&self, key: &str) -> (value: Option<&String>)
        ensures
            match value {
                Some(v) => self@.contains_key(key@) && self@[key@] == v@,
                None => !self@.contains_key(key@),
            },
    {
        match &self.name {
            Some(tool) => if same(key, "name") {
                Some(tool)
            } else {
                None
            },
            None => None,
        }
    }

    /// The number of params.
    pub fn len(&self) -> (n: usize)
        ensures
            n == self@.dom().len(),
    {
        match &self.name {
            Some(_) => {
                assert(self@.dom() == set!["name"@]);
                1
            },
            None => {
                assert(self@.dom() == Set::<Seq<char>>::empty());
                0
            },
        }
    }

    /// Whether there are no params.
    pub fn is_empty(&self) -> (empty: bool)
        ensures
            empty == (self@ == Map::<Seq<char>, Seq<char>>::empty()),
    {
        match &self.name {
            Some(_) => {
                assert(self@.contains_key("name"@));
                false
            },
            None => true,
        }
    }
}

/// The params that show a tool name to policy.
pub fn mcp_policy_params(tool: Option<&str>) -> (params: PolicyParams)
    ensures
        params@ == tool_params(
            match tool {
                Some(name) => Some(name@),
                None => None,
            },
        ),
{
    match tool {
        Some(name) => PolicyParams { name: Some(name.to_string()) },
        None => PolicyParams { name: None },
    }
}

/// One call of a JSON-RPC-family request.
#[derive(Debug, PartialEq, Eq)]
pub struct JsonRpcCallInfo {
    /// JSON-RPC or MCP method.
    pub method: String,
    /// Policy-visible params: for MCP only the tool name.
    pub params: PolicyParams,
    /// Tool name of an MCP `tools/call`.
    pub tool: Option<String>,
    /// Classification of an MCP method; generic calls have none.
    pub mcp_classification: Option<McpMethodClassification>,
    /// Whether the call carries no `id`.
    pub is_notification: bool,
}

/// What a [`JsonRpcCallInfo`] denotes.
#[verifier::ext_equal]
pub struct CallModel {
    pub method: Seq<char>,
    pub params: Map<Seq<char>, Seq<char>>,
    pub tool: Option<Seq<char>>,
    pub mcp_classification: Option<McpMethodClassification>,
    pub is_notification: bool,
}

/// The text of an optional string.
pub open spec fn text_of(s: Option<String>) -> Option<Seq<char>> {
    match s {
        Some(s) => Some(s@),
        None => None,
    }
}

impl View for JsonRpcCallInfo {
    type V = CallModel;

    open spec fn view(&self) -> CallModel {
        CallModel {
            method: self.method@,
            params: self.params@,
            tool: text_of(self.tool),
            mcp_classification: self.mcp_classification,
            is_notification: self.is_notification,
        }
    }
}

/// What inspection found in one request.
#[derive(Debug, PartialEq, Eq)]
pub struct JsonRpcRequestInfo {
    /// Calls in the body. Responses and receive streams have none.
    pub calls: Vec<JsonRpcCallInfo>,
    pub is_batch: bool,
    pub receive_stream: bool,
    pub has_response: bool,
    /// The MCP revision that inspection used, if any.
    pub mcp_revision: Option<McpProtocolVersion>,
    /// Failure found before policy evaluation.
    pub error: Option<JsonRpcInspectionError>,
}

/// What a [`JsonRpcRequestInfo`] denotes.
#[verifier::ext_equal]
pub struct InfoModel {
    pub calls: Seq<CallModel>,
    pub is_batch: bool,
    pub receive_stream: bool,
    pub has_response: bool,
    pub mcp_revision: Option<McpProtocolVersion>,
    pub error: Option<ErrorModel>,
}

/// What a list of calls denotes.
pub open spec fn calls_of(calls: Seq<JsonRpcCallInfo>) -> Seq<CallModel> {
    calls.map_values(|call: JsonRpcCallInfo| call@)
}

impl View for JsonRpcRequestInfo {
    type V = InfoModel;

    open spec fn view(&self) -> InfoModel {
        InfoModel {
            calls: calls_of(self.calls@),
            is_batch: self.is_batch,
            receive_stream: self.receive_stream,
            has_response: self.has_response,
            mcp_revision: self.mcp_revision,
            error: match self.error {
                Some(e) => Some(e@),
                None => None,
            },
        }
    }
}

/// What is known of a rejected request.
pub open spec fn rejection(is_batch: bool, error: ErrorModel) -> InfoModel {
    InfoModel {
        calls: seq![],
        is_batch,
        receive_stream: false,
        has_response: false,
        mcp_revision: None,
        error: Some(error),
    }
}

/// What is known of an accepted request.
pub open spec fn acceptance(
    calls: Seq<CallModel>,
    is_batch: bool,
    has_response: bool,
    mcp_revision: Option<McpProtocolVersion>,
) -> InfoModel {
    InfoModel { calls, is_batch, receive_stream: false, has_response, mcp_revision, error: None }
}

impl JsonRpcRequestInfo {
    /// A rejected request.
    pub fn rejected(is_batch: bool, error: JsonRpcInspectionError) -> (info: Self)
        ensures
            info@ == rejection(is_batch, error@),
    {
        let info = JsonRpcRequestInfo {
            calls: Vec::new(),
            is_batch,
            receive_stream: false,
            has_response: false,
            mcp_revision: None,
            error: Some(error),
        };
        assert(info@.calls == Seq::<CallModel>::empty());
        info
    }

    /// An accepted request.
    pub fn accepted(
        calls: Vec<JsonRpcCallInfo>,
        is_batch: bool,
        has_response: bool,
        mcp_revision: Option<McpProtocolVersion>,
    ) -> (info: Self)
        ensures
            info@ == acceptance(calls_of(calls@), is_batch, has_response, mcp_revision),
    {
        JsonRpcRequestInfo {
            calls,
            is_batch,
            receive_stream: false,
            has_response,
            mcp_revision,
            error: None,
        }
    }

    /// A bodiless GET that receives server messages.
    pub fn receive_stream() -> (info: Self)
        ensures
            info@ == (InfoModel {
                calls: seq![],
                is_batch: false,
                receive_stream: true,
                has_response: false,
                mcp_revision: None,
                error: None,
            }),
    {
        let info = JsonRpcRequestInfo {
            calls: Vec::new(),
            is_batch: false,
            receive_stream: true,
            has_response: false,
            mcp_revision: None,
            error: None,
        };
        assert(info@.calls == Seq::<CallModel>::empty());
        info
    }
}

/// Whether a part of an `Accept` header names the event-stream media type.
pub open spec fn names_event_stream(part: Seq<char>) -> bool {
    text::lowered(text::trim(text::before_first(part, ';'), CharClass::WhiteSpace))
        == text::lowered("text/event-stream"@)
}

/// Whether a header line accepts event streams.
pub open spec fn line_accepts_sse(line: Seq<char>) -> bool {
    match text::split_once(line, ':') {
        Some((name, value)) => {
            &&& text::lowered(text::trim(name, CharClass::WhiteSpace)) == text::lowered("accept"@)
            &&& exists|i: int|
                0 <= i < text::split(value, ',').len() && names_event_stream(
                    #[trigger] text::split(value, ',')[i],
                )
        },
        None => false,
    }
}

/// The head of a request: up to its blank line, or all bytes without one.
pub open spec fn request_head(raw: Seq<u8>) -> Seq<u8> {
    match bytes::head_end(raw) {
        Some(end) => raw.take(end),
        None => raw,
    }
}

/// Whether a line after the request line accepts event streams.
pub open spec fn accepts_sse(raw: Seq<u8>) -> bool {
    let lines = text::lines(bytes::utf8_lossy(request_head(raw)));
    exists|i: int| 1 <= i < lines.len() && line_accepts_sse(#[trigger] lines[i])
}

#[verifier::loop_isolation(false)]
fn sse_line(line: &str) -> (r: bool)
    ensures
        r == line_accepts_sse(line@),
{
    let (name, value) = match split_at_first(line, ':') {
        Some(pair) => pair,
        None => {
            return false;
        },
    };
    if !same_ignoring_case(trimmed(name.as_str(), CharClass::WhiteSpace).as_str(), "accept") {
        return false;
    }
    let parts = split_parts(value.as_str(), ',');
    let ghost all = text::split(value@, ',');
    let mut i: usize = 0;
    while i < parts.len()
        invariant
            i <= parts@.len(),
            all == text::split(value@, ','),
            text::texts(parts@) == all,
            forall|k: int| 0 <= k < i ==> !names_event_stream(#[trigger] all[k]),
        decreases parts@.len() - i,
    {
        let media_type = part_before(parts[i].as_str(), ';');
        assert(parts@[i as int]@ == all[i as int]);
        if same_ignoring_case(
            trimmed(media_type.as_str(), CharClass::WhiteSpace).as_str(),
            "text/event-stream",
        ) {
            assert(names_event_stream(all[i as int]));
            return true;
        }
        i += 1;
    }
    false
}

/// Whether a request accepts event streams.
#[verifier::loop_isolation(false)]
pub fn request_accepts_sse(request: &L7Request) -> (r: bool)
    ensures
        r == accepts_sse(request.raw_header@),
{
    let end = match find_head_end(request.raw_header.as_slice()) {
        Some(end) => end,
        None => request.raw_header.len(),
    };
    let head = slice(request.raw_header.as_slice(), 0, end);
    assert(head@ == request_head(request.raw_header@));
    let header = utf8_text_lossy(head.as_slice());
    let lines = lines_of(header.as_str());
    let ghost all = text::lines(header@);
    let mut i: usize = 1;
    while i < lines.len()
        invariant
            1 <= i,
            text::texts(lines@) == all,
            forall|k: int| 1 <= k < i && k < all.len() ==> !line_accepts_sse(#[trigger] all[k]),
        decreases lines@.len() - i,
    {
        assert(lines@[i as int]@ == all[i as int]);
        if sse_line(lines[i].as_str()) {
            return true;
        }
        i += 1;
    }
    false
}

/// Whether a request is a bodiless GET that receives server messages.
pub open spec fn is_receive_stream(request: L7Request) -> bool {
    &&& text::lowered(request.action@) == text::lowered("GET"@)
    &&& request.body_length == BodyLength::Absent || request.body_length
        == BodyLength::ContentLength(0)
    &&& accepts_sse(request.raw_header@)
}

/// Recognizes a bodiless GET that receives server messages.
pub fn jsonrpc_receive_stream_request(request: &L7Request) -> (r: bool)
    ensures
        r == is_receive_stream(*request),
{
    let bodiless = match request.body_length {
        BodyLength::Absent => true,
        BodyLength::ContentLength(length) => length == 0,
        BodyLength::Chunked => false,
    };
    same_ignoring_case(request.action.as_str(), "GET") && bodiless && request_accepts_sse(request)
}

/// Why the body of a buffered request cannot be taken as it stands.
#[derive(Debug, Clone, Copy, PartialEq, Eq, Structural)]
pub enum BufferedBodyError {
    MissingTerminator,
    LengthMismatch,
    UnframedBytes,
    ChunkedFraming,
}

impl BufferedBodyError {
    /// The diagnostic.
    pub fn message(self) -> (text: &'static str)
        ensures
            text@ == match self {
                BufferedBodyError::MissingTerminator => {
                    "HTTP request headers are missing the CRLF terminator"@
                },
                BufferedBodyError::LengthMismatch => {
                    "buffered HTTP request body length does not match Content-Length"@
                },
                BufferedBodyError::UnframedBytes => {
                    "buffered HTTP request has bytes without body framing"@
                },
                BufferedBodyError::ChunkedFraming => {
                    "buffered JSON-RPC request retained chunked framing"@
                },
            },
    {
        match self {
            BufferedBodyError::MissingTerminator => {
                "HTTP request headers are missing the CRLF terminator"
            },
            BufferedBodyError::LengthMismatch => {
                "buffered HTTP request body length does not match Content-Length"
            },
            BufferedBodyError::UnframedBytes => {
                "buffered HTTP request has bytes without body framing"
            },
            BufferedBodyError::ChunkedFraming => {
                "buffered JSON-RPC request retained chunked framing"
            },
        }
    }
}

/// What a buffered request holds for inspection.
#[derive(Debug)]
pub enum BufferedRequest {
    /// A receive stream, which has no body.
    ReceiveStream,
    /// The body.
    Body(Vec<u8>),
}

/// The body of a buffered request, or why there is none.
pub open spec fn buffered_body(raw: Seq<u8>, framing: BodyLength) -> Result<
    Seq<u8>,
    BufferedBodyError,
> {
    match bytes::head_end(raw) {
        None => Err(BufferedBodyError::MissingTerminator),
        Some(end) => {
            let body = raw.skip(end);
            match framing {
                BodyLength::Absent => if body.len() == 0 {
                    Ok(body)
                } else {
                    Err(BufferedBodyError::UnframedBytes)
                },
                BodyLength::ContentLength(length) => if body.len() == length {
                    Ok(body)
                } else {
                    Err(BufferedBodyError::LengthMismatch)
                },
                BodyLength::Chunked => Err(BufferedBodyError::ChunkedFraming),
            }
        },
    }
}

/// Takes the body out of a fully buffered request for a final inspection.
pub fn buffered_jsonrpc_body(request: &L7Request) -> (r: Result<BufferedRequest, BufferedBodyError>)
    ensures
        is_receive_stream(*request) ==> r == Ok::<BufferedRequest, BufferedBodyError>(
            BufferedRequest::ReceiveStream,
        ),
        !is_receive_stream(*request) ==> match r {
            Ok(BufferedRequest::Body(body)) => buffered_body(
                request.raw_header@,
                request.body_length,
            ) == Ok::<Seq<u8>, BufferedBodyError>(body@),
            Ok(BufferedRequest::ReceiveStream) => false,
            Err(error) => buffered_body(request.raw_header@, request.body_length) == Err::<
                Seq<u8>,
                BufferedBodyError,
            >(error),
        },
{
    if jsonrpc_receive_stream_request(request) {
        return Ok(BufferedRequest::ReceiveStream);
    }
    let raw = request.raw_header.as_slice();
    let end = match find_head_end(raw) {
        Some(end) => end,
        None => {
            return Err(BufferedBodyError::MissingTerminator);
        },
    };
    let body = slice(raw, end, raw.len());
    assert(body@ == raw@.skip(end as int));
    match request.body_length {
        BodyLength::Absent => if body.len() == 0 {
            Ok(BufferedRequest::Body(body))
        } else {
            Err(BufferedBodyError::UnframedBytes)
        },
        BodyLength::ContentLength(length) => if body.len() as u64 == length {
            Ok(BufferedRequest::Body(body))
        } else {
            Err(BufferedBodyError::LengthMismatch)
        },
        BodyLength::Chunked => Err(BufferedBodyError::ChunkedFraming),
    }
}

/// Inspects a fully buffered request, given what its body decodes to.
pub fn inspect_buffered_jsonrpc_http_request(
    request: &L7Request,
    decoded: Option<JsonValue>,
    options: JsonRpcInspectionOptions,
) -> (r: Result<JsonRpcRequestInfo, BufferedBodyError>)
    ensures
        is_receive_stream(*request) ==> (r matches Ok(info) && info@ == (InfoModel {
            calls: seq![],
            is_batch: false,
            receive_stream: true,
            has_response: false,
            mcp_revision: None,
            error: None,
        })),
        !is_receive_stream(*request) ==> match r {
            Ok(info) => buffered_body(request.raw_header@, request.body_length) is Ok && info@
                == request_info(decoded_value(decoded), options),
            Err(error) => buffered_body(request.raw_header@, request.body_length) == Err::<
                Seq<u8>,
                BufferedBodyError,
            >(error),
        },
{
    match buffered_jsonrpc_body(request) {
        Ok(BufferedRequest::ReceiveStream) => Ok(JsonRpcRequestInfo::receive_stream()),
        Ok(BufferedRequest::Body(_)) => Ok(parse_jsonrpc_body_with_options(decoded, options)),
        Err(error) => Err(error),
    }
}

/// What a JSON-RPC message is.
#[derive(Debug)]
pub enum JsonRpcMessageInfo {
    Call(JsonRpcCallInfo),
    Response,
}

/// What a [`JsonRpcMessageInfo`] denotes.
pub enum MessageModel {
    Call(CallModel),
    Response,
}

impl View for JsonRpcMessageInfo {
    type V = MessageModel;

    open spec fn view(&self) -> MessageModel {
        match self {
            JsonRpcMessageInfo::Call(call) => MessageModel::Call(call@),
            JsonRpcMessageInfo::Response => MessageModel::Response,
        }
    }
}

/// Whether a value has a member.
pub open spec fn has_member(value: Json, key: Seq<char>) -> bool {
    value.field(key) is Some
}

/// Why a value is no JSON-RPC response, if so.
pub open spec fn response_fault(value: Json) -> Option<Seq<char>> {
    if has_member(value, "result"@) && has_member(value, "error"@) {
        Some("JSON-RPC response includes both result and error"@)
    } else if !has_member(value, "result"@) && !has_member(value, "error"@) {
        Some("JSON-RPC response missing result or error"@)
    } else {
        match value.field("id"@) {
            None => Some("JSON-RPC response missing id"@),
            Some(id) => if !(id is Text || id is Number || id is Null) {
                Some("JSON-RPC response id must be string, number, or null"@)
            } else {
                match value.field("error"@) {
                    Some(error) => if error is Object {
                        None
                    } else {
                        Some("JSON-RPC response error must be an object"@)
                    },
                    None => None,
                }
            },
        }
    }
}

/// The generic call of a method.
pub open spec fn generic_call(method: Seq<char>, is_notification: bool) -> CallModel {
    CallModel {
        method,
        params: Map::empty(),
        tool: None,
        mcp_classification: None,
        is_notification,
    }
}

/// What a value is as a JSON-RPC message, or why it is none.
pub open spec fn message(value: Json) -> Result<MessageModel, Seq<char>> {
    match value.text_field("jsonrpc"@) {
        None => Err("missing or non-string 'jsonrpc' field"@),
        Some(version) => if version != "2.0"@ {
            Err("unsupported JSON-RPC version '"@ + version + "'"@)
        } else if has_member(value, "method"@) && (has_member(value, "result"@) || has_member(value, "error"@)) {
            Err("JSON-RPC message includes both method and result/error"@)
        } else if has_member(value, "result"@) || has_member(value, "error"@) {
            match response_fault(value) {
                Some(fault) => Err(fault),
                None => Ok(MessageModel::Response),
            }
        } else {
            match value.text_field("method"@) {
                Some(method) => Ok(MessageModel::Call(generic_call(method, !has_member(value, "id"@)))),
                None => Err("missing or non-string 'method' field"@),
            }
        },
    }
}

/// Whether a value carries a response.
pub fn jsonrpc_response_payload_present(value: &JsonValue) -> (r: bool)
    ensures
        r == (has_member(value@, "result"@) || has_member(value@, "error"@)),
{
    value.get("result").is_some() || value.get("error").is_some()
}

/// Checks a response.
pub fn parse_jsonrpc_response(value: &JsonValue) -> (r: Result<(), String>)
    ensures
        match r {
            Ok(_) => response_fault(value@) is None,
            Err(fault) => response_fault(value@) == Some(fault@),
        },
{
    let has_result = value.get("result").is_some();
    let error = value.get("error");
    if has_result && error.is_some() {
        return Err("JSON-RPC response includes both result and error".to_string());
    }
    if !has_result && error.is_none() {
        return Err("JSON-RPC response missing result or error".to_string());
    }
    match value.get("id") {
        None => {
            return Err("JSON-RPC response missing id".to_string());
        },
        Some(JsonValue::Text(_)) | Some(JsonValue::Number(_)) | Some(JsonValue::Null) => {},
        Some(_) => {
            return Err("JSON-RPC response id must be string, number, or null".to_string());
        },
    }
    match error {
        None | Some(JsonValue::Object(_)) => Ok(()),
        Some(_) => Err("JSON-RPC response error must be an object".to_string()),
    }
}

/// Reads a generic call.
pub fn parse_jsonrpc_call(value: &JsonValue) -> (r: Result<JsonRpcCallInfo, String>)
    ensures
        match r {
            Ok(call) => value@.text_field("method"@) matches Some(method) && call@ == generic_call(
                method,
                !has_member(value@, "id"@),
            ),
            Err(fault) => value@.text_field("method"@) is None && fault@
                == "missing or non-string 'method' field"@,
        },
{
    match value.get_text("method") {
        Some(method) => Ok(
            JsonRpcCallInfo {
                method: method.to_string(),
                params: PolicyParams::new(),
                tool: None,
                mcp_classification: None,
                is_notification: value.get("id").is_none(),
            },
        ),
        None => Err("missing or non-string 'method' field".to_string()),
    }
}

/// Reads a JSON-RPC message.
pub fn parse_jsonrpc_message(value: &JsonValue) -> (r: Result<JsonRpcMessageInfo, String>)
    ensures
        match r {
            Ok(info) => message(value@) == Ok::<MessageModel, Seq<char>>(info@),
            Err(fault) => message(value@) == Err::<MessageModel, Seq<char>>(fault@),
        },
{
    let version = match value.get_text("jsonrpc") {
        Some(version) => version,
        None => {
            return Err("missing or non-string 'jsonrpc' field".to_string());
        },
    };
    if !same(version, "2.0") {
        let mut fault = "unsupported JSON-RPC version '".to_string();
        fault.append(version);
        fault.append("'");
        return Err(fault);
    }
    let has_method = value.get("method").is_some();
    let has_response_payload = jsonrpc_response_payload_present(value);
    if has_method && has_response_payload {
        return Err("JSON-RPC message includes both method and result/error".to_string());
    }
    if has_response_payload {
        return match parse_jsonrpc_response(value) {
            Ok(_) => Ok(JsonRpcMessageInfo::Response),
            Err(fault) => Err(fault),
        };
    }
    match parse_jsonrpc_call(value) {
        Ok(call) => Ok(JsonRpcMessageInfo::Call(call)),
        Err(fault) => Err(fault),
    }
}

/// The calls among messages.
pub open spec fn calls_in(items: Seq<Json>) -> Seq<CallModel>
    decreases items.len(),
{
    if items.len() == 0 {
        seq![]
    } else {
        match message(items.last()) {
            Ok(MessageModel::Call(call)) => calls_in(items.drop_last()).push(call),
            _ => calls_in(items.drop_last()),
        }
    }
}

/// The position of the first item that is no message, or the number of items.
pub open spec fn first_invalid(items: Seq<Json>) -> int
    decreases items.len(),
{
    if items.len() == 0 || message(items[0]) is Err {
        0
    } else {
        1 + first_invalid(items.skip(1))
    }
}

/// Whether a response stands among messages.
pub open spec fn response_in(items: Seq<Json>) -> bool {
    exists|i: int|
        0 <= i < items.len() && message(#[trigger] items[i]) == Ok::<MessageModel, Seq<char>>(
            MessageModel::Response,
        )
}

/// What is known of a generic batch.
pub open spec fn batch_info(items: Seq<Json>) -> InfoModel {
    let at = first_invalid(items);
    if items.len() == 0 {
        rejection(
            true,
            error_of(JsonRpcInspectionErrorKind::InvalidMessage, "empty batch"@),
        )
    } else if at < items.len() {
        rejection(
            true,
            error_of(
                JsonRpcInspectionErrorKind::InvalidMessage,
                "batch item invalid: "@ + message(items[at])->Err_0,
            ),
        )
    } else {
        acceptance(calls_in(items), true, response_in(items), None)
    }
}

/// What is known of a decoded body under the given options.
pub open spec fn document_info(value: Json, options: JsonRpcInspectionOptions) -> InfoModel {
    if options.mode == JsonRpcInspectionMode::Mcp {
        mcp_payload::mcp_info(value, options)
    } else {
        match value {
            Json::Array(items) => batch_info(items),
            _ => match message(value) {
                Ok(MessageModel::Call(call)) => acceptance(seq![call], false, false, None),
                Ok(MessageModel::Response) => acceptance(seq![], false, true, None),
                Err(fault) => rejection(
                    false,
                    error_of(JsonRpcInspectionErrorKind::InvalidMessage, fault),
                ),
            },
        }
    }
}

/// What the decoding of a body gave, if it is JSON.
pub open spec fn decoded_value(decoded: Option<JsonValue>) -> Option<Json> {
    match decoded {
        Some(value) => Some(value@),
        None => None,
    }
}

/// The diagnostic of a duplicate key.
pub open spec fn duplicate_detail(d: duplicate::DuplicateModel) -> Seq<char> {
    "duplicate JSON object key '"@ + d.key + "' at "@ + d.object_path
}

/// A decoded body without duplicate keys, or why there is none.
pub open spec fn unique_value(decoded: Option<Json>) -> Result<Json, ErrorModel> {
    match decoded {
        None => Err(error_of(JsonRpcInspectionErrorKind::InvalidJson, "invalid JSON"@)),
        Some(value) => match duplicate::first_duplicate(value, "$"@) {
            Some(d) => Err(
                error_of(JsonRpcInspectionErrorKind::InvalidJson, duplicate_detail(d)),
            ),
            None => Ok(value),
        },
    }
}

/// What is known of a request whose body decodes to `decoded`.
pub open spec fn request_info(
    decoded: Option<Json>,
    options: JsonRpcInspectionOptions,
) -> InfoModel {
    match unique_value(decoded) {
        Ok(value) => document_info(value, options),
        Err(error) => rejection(false, error),
    }
}

/// Rejects a decoded body with a duplicate object key.
///
/// The decoding keeps every entry of every object in the order of the body, so
/// that what is inspected and what is forwarded cannot select different values
/// for one key.
pub fn parse_unique_json_value(decoded: Option<JsonValue>) -> (r: Result<
    JsonValue,
    JsonRpcInspectionError,
>)
    ensures
        match r {
            Ok(value) => unique_value(decoded_value(decoded)) == Ok::<Json, ErrorModel>(value@),
            Err(error) => unique_value(decoded_value(decoded)) == Err::<Json, ErrorModel>(error@),
        },
{
    let value = match decoded {
        Some(value) => value,
        None => {
            return Err(JsonRpcInspectionError::invalid_json());
        },
    };
    match find_duplicate(&value, "$") {
        Some(d) => {
            let mut detail = "duplicate JSON object key '".to_string();
            detail.append(d.key.as_str());
            detail.append("' at ");
            detail.append(d.object_path.as_str());
            Err(JsonRpcInspectionError::invalid_json_with_detail(detail))
        },
        None => Ok(value),
    }
}

fn parse_jsonrpc_batch(items: &Vec<JsonValue>) -> (info: JsonRpcRequestInfo)
    ensures
        info@ == batch_info(json::values(items@)),
{
    if items.len() == 0 {
        return JsonRpcRequestInfo::rejected(
            true,
            JsonRpcInspectionError::invalid_message("empty batch".to_string()),
        );
    }
    let ghost all = json::values(items@);
    let mut calls: Vec<JsonRpcCallInfo> = Vec::new();
    let mut has_response = false;
    let mut i: usize = 0;
    assert(all.skip(0) == all);
    assert(calls_of(calls@) == calls_in(all.take(0)));
    while i < items.len()
        invariant
            i <= items@.len(),
            items@.len() > 0,
            all == json::values(items@),
            first_invalid(all) == i + first_invalid(all.skip(i as int)),
            calls_of(calls@) == calls_in(all.take(i as int)),
            has_response == response_in(all.take(i as int)),
        decreases items@.len() - i,
    {
        proof {
            assert(all.skip(i as int).skip(1) == all.skip(i + 1));
            assert(all.skip(i as int)[0] == all[i as int]);
            assert(all[i as int] == items@[i as int]@);
            let next = all.take(i + 1);
            assert(next.drop_last() == all.take(i as int));
            assert(next.last() == all[i as int]);
            assert(response_in(next) == (response_in(all.take(i as int)) || message(all[i as int])
                == Ok::<MessageModel, Seq<char>>(MessageModel::Response))) by {
                let part = all.take(i as int);
                if response_in(part) {
                    let k = choose|k: int|
                        0 <= k < part.len() && message(#[trigger] part[k]) == Ok::<
                            MessageModel,
                            Seq<char>,
                        >(MessageModel::Response);
                    assert(next[k] == part[k]);
                }
                if response_in(next) {
                    let k = choose|k: int|
                        0 <= k < next.len() && message(#[trigger] next[k]) == Ok::<
                            MessageModel,
                            Seq<char>,
                        >(MessageModel::Response);
                    if k < i {
                        assert(next[k] == part[k]);
                    }
                }
            }
        }
        match parse_jsonrpc_message(&items[i]) {
            Ok(JsonRpcMessageInfo::Call(call)) => {
                let ghost before = calls_of(calls@);
                calls.push(call);
                assert(calls_of(calls@) == before.push(call@));
            },
            Ok(JsonRpcMessageInfo::Response) => {
                has_response = true;
            },
            Err(fault) => {
                let mut detail = "batch item invalid: ".to_string();
                detail.append(fault.as_str());
                return JsonRpcRequestInfo::rejected(
                    true,
                    JsonRpcInspectionError::invalid_message(detail),
                );
            },
        }
        i += 1;
    }
    assert(all.take(i as int) == all);
    JsonRpcRequestInfo::accepted(calls, true, has_response, None)
}

/// Inspects a body under the options of an endpoint. `decoded` is what the
/// body decodes to, or `None` where it is no JSON.
pub fn parse_jsonrpc_body_with_options(
    decoded: Option<JsonValue>,
    options: JsonRpcInspectionOptions,
) -> (info: JsonRpcRequestInfo)
    ensures
        info@ == request_info(decoded_value(decoded), options),
        info@.is_batch <==> unique_value(decoded_value(decoded)) matches Ok(Json::Array(_)),
{
    let value = match parse_unique_json_value(decoded) {
        Ok(value) => value,
        Err(error) => {
            return JsonRpcRequestInfo::rejected(false, error);
        },
    };
    if options.mode == JsonRpcInspectionMode::Mcp {
        return parse_mcp_payload(&value, options);
    }
    if let JsonValue::Array(items) = &value {
        return parse_jsonrpc_batch(items);
    }
    match parse_jsonrpc_message(&value) {
        Ok(JsonRpcMessageInfo::Call(call)) => {
            let mut calls: Vec<JsonRpcCallInfo> = Vec::new();
            calls.push(call);
            assert(calls_of(calls@) == seq![call@]);
            JsonRpcRequestInfo::accepted(calls, false, false, None)
        },
        Ok(JsonRpcMessageInfo::Response) => {
            let calls: Vec<JsonRpcCallInfo> = Vec::new();
            assert(calls_of(calls@) == Seq::<CallModel>::empty());
            JsonRpcRequestInfo::accepted(calls, false, true, None)
        },
        Err(fault) => JsonRpcRequestInfo::rejected(
            false,
            JsonRpcInspectionError::invalid_message(fault),
        ),
    }
}

/// Inspects a body under a mode alone: strict tool names, and in MCP mode
/// nothing but an `initialize` request.
pub fn parse_jsonrpc_body(
    decoded: Option<JsonValue>,
    inspection_mode: JsonRpcInspectionMode,
) -> (info: JsonRpcRequestInfo)
    ensures
        info@ == request_info(decoded_value(decoded), mode_options(inspection_mode)),
{
    parse_jsonrpc_body_with_options(decoded, JsonRpcInspectionOptions::for_mode(inspection_mode))
}

} // verus!
