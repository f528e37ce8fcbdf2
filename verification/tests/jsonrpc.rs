//! JSON-RPC and MCP request inspection.

use std::fmt;

use openshell_supervisor_network::json::{JsonNumber, JsonValue};
use openshell_supervisor_network::l7::jsonrpc::{
    buffered_jsonrpc_body, inspect_buffered_jsonrpc_http_request, jsonrpc_receive_stream_request,
    parse_jsonrpc_body, parse_jsonrpc_body_with_options, BufferedBodyError, BufferedRequest,
    JsonRpcInspectionError, JsonRpcInspectionErrorKind, JsonRpcInspectionMode,
    JsonRpcInspectionOptions, JsonRpcRequestInfo, McpMethodClassification,
};
use openshell_supervisor_network::l7::mcp::{
    select_request_protocol_version, McpProtocolVersionError, McpRequestProtocolVersion,
};
use openshell_supervisor_network::l7::protocol::{
    L7Protocol, McpProtocolVersion, MAX_MCP_LEGACY_BATCH_MESSAGES,
};
use openshell_supervisor_network::l7::provider::{BodyLength, L7Request};
use serde::de::{Deserialize, Deserializer, MapAccess, SeqAccess, Visitor};

/// A JSON value with its object entries as they stand in the text.
struct Wire(JsonValue);

struct WireVisitor;

impl<'de> Visitor<'de> for WireVisitor {
    type Value = Wire;

    fn expecting(&self, formatter: &mut fmt::Formatter<'_>) -> fmt::Result {
        formatter.write_str("a JSON value")
    }

    fn visit_bool<E>(self, value: bool) -> Result<Wire, E> {
        Ok(Wire(JsonValue::Bool(value)))
    }

    fn visit_i64<E>(self, value: i64) -> Result<Wire, E> {
        Ok(Wire(JsonValue::Number(JsonNumber::Negative(value))))
    }

    fn visit_u64<E>(self, value: u64) -> Result<Wire, E> {
        Ok(Wire(JsonValue::Number(JsonNumber::Unsigned(value))))
    }

    fn visit_f64<E>(self, value: f64) -> Result<Wire, E> {
        Ok(Wire(JsonValue::Number(JsonNumber::Decimal(
            serde_json::Value::from(value).to_string(),
        ))))
    }

    fn visit_str<E>(self, value: &str) -> Result<Wire, E> {
        Ok(Wire(JsonValue::Text(value.to_string())))
    }

    fn visit_unit<E>(self) -> Result<Wire, E> {
        Ok(Wire(JsonValue::Null))
    }

    fn visit_seq<A: SeqAccess<'de>>(self, mut access: A) -> Result<Wire, A::Error> {
        let mut items = Vec::new();
        while let Some(Wire(item)) = access.next_element::<Wire>()? {
            items.push(item);
        }
        Ok(Wire(JsonValue::Array(items)))
    }

    fn visit_map<A: MapAccess<'de>>(self, mut access: A) -> Result<Wire, A::Error> {
        let mut entries = Vec::new();
        while let Some((key, Wire(value))) = access.next_entry::<String, Wire>()? {
            entries.push((key, value));
        }
        Ok(Wire(JsonValue::Object(entries)))
    }
}

impl<'de> Deserialize<'de> for Wire {
    fn deserialize<D: Deserializer<'de>>(deserializer: D) -> Result<Self, D::Error> {
        deserializer.deserialize_any(WireVisitor)
    }
}

fn decode(body: &[u8]) -> Option<JsonValue> {
    serde_json::from_slice::<Wire>(body).ok().map(|wire| wire.0)
}

fn result_message(index: usize) -> serde_json::Value {
    let mut result = serde_json::Map::new();
    result.insert("ok".to_string(), serde_json::Value::Bool(true));
    let mut message = serde_json::Map::new();
    message.insert("jsonrpc".to_string(), serde_json::Value::from("2.0"));
    message.insert("id".to_string(), serde_json::Value::from(index));
    message.insert("result".to_string(), serde_json::Value::Object(result));
    serde_json::Value::Object(message)
}

fn assert_inspection_error(
    body: &[u8],
    mode: JsonRpcInspectionMode,
    expected_kind: JsonRpcInspectionErrorKind,
    expected_detail: &str,
) {
    let info = parse_jsonrpc_body(decode(body), mode);
    let error = info.error.as_ref().expect("inspection failure");

    assert_eq!(error.kind(), expected_kind);
    assert_eq!(error.detail(), expected_detail);
}

fn mcp_options(revision: McpProtocolVersion) -> JsonRpcInspectionOptions {
    JsonRpcInspectionOptions::mcp_selected(revision, true)
}

#[test]
fn parses_method_from_request_body() {
    let body = br#"{"jsonrpc":"2.0","id":1,"method":"initialize","params":{}}"#;
    let info = parse_jsonrpc_body(decode(body), JsonRpcInspectionMode::JsonRpc);
    assert_eq!(
        info.calls.first().map(|call| call.method.as_str()),
        Some("initialize")
    );
    assert_eq!(info.calls.len(), 1);
    assert!(!info.is_batch);
    assert!(!info.has_response);
    assert!(info.error.is_none());
}

#[test]
fn parses_jsonrpc_response_body_without_method() {
    let body = br#"{"jsonrpc":"2.0","id":1,"result":{"action":"accept","content":{}}}"#;
    let info = parse_jsonrpc_body(decode(body), JsonRpcInspectionMode::JsonRpc);

    assert!(info.calls.is_empty());
    assert!(!info.is_batch);
    assert!(info.has_response);
    assert!(info.error.is_none());
}

#[test]
fn parses_jsonrpc_error_response_body_without_method() {
    let body =
        br#"{"jsonrpc":"2.0","id":"request-1","error":{"code":-32603,"message":"failed"}}"#;
    let info = parse_jsonrpc_body(decode(body), JsonRpcInspectionMode::JsonRpc);

    assert!(info.calls.is_empty());
    assert!(info.has_response);
    assert!(info.error.is_none());
}

#[test]
fn inspection_error_kinds_distinguish_invalid_json_and_messages() {
    assert_inspection_error(
        b"{",
        JsonRpcInspectionMode::JsonRpc,
        JsonRpcInspectionErrorKind::InvalidJson,
        "invalid JSON",
    );
    assert_inspection_error(
        br"[]",
        JsonRpcInspectionMode::JsonRpc,
        JsonRpcInspectionErrorKind::InvalidMessage,
        "empty batch",
    );
    assert_inspection_error(
        br"null",
        JsonRpcInspectionMode::JsonRpc,
        JsonRpcInspectionErrorKind::InvalidMessage,
        "missing or non-string 'jsonrpc' field",
    );
    assert_inspection_error(
        br#"[{"jsonrpc":"2.0","id":1,"method":"reports.list"},{"id":2,"method":"reports.search"}]"#,
        JsonRpcInspectionMode::JsonRpc,
        JsonRpcInspectionErrorKind::InvalidMessage,
        "batch item invalid: missing or non-string 'jsonrpc' field",
    );
}

#[test]
fn rejects_duplicate_jsonrpc_envelope_keys_before_semantic_inspection() {
    let fixtures: &[(&str, &[u8])] = &[
        (
            "jsonrpc",
            br#"{"jsonrpc":"2.0","jsonrpc":"2.0","id":1,"method":"tools/list","params":{}}"#,
        ),
        (
            "id",
            br#"{"jsonrpc":"2.0","id":1,"id":2,"method":"tools/list","params":{}}"#,
        ),
        (
            "method",
            br#"{"jsonrpc":"2.0","id":1,"method":"tools/list","method":"vendor/other","params":{}}"#,
        ),
        (
            "params",
            br#"{"jsonrpc":"2.0","id":1,"method":"tools/list","params":{},"params":{"cursor":"next"}}"#,
        ),
    ];

    for (key, body) in fixtures {
        let info =
            parse_jsonrpc_body_with_options(decode(body), mcp_options(McpProtocolVersion::V2025_11_25));
        assert!(info.calls.is_empty());
        assert_eq!(
            info.error.as_ref().map(JsonRpcInspectionError::kind),
            Some(JsonRpcInspectionErrorKind::InvalidJson),
            "duplicate {key} must fail before MCP inspection: {info:?}"
        );
        assert!(
            info.error
                .as_ref()
                .is_some_and(|error| error.detail().contains(key)),
            "duplicate-key detail should identify {key}: {info:?}"
        );
    }
}

#[test]
fn rejects_duplicate_keys_recursively_but_allows_same_key_in_distinct_objects() {
    let duplicate = br#"{
        "jsonrpc":"2.0",
        "id":1,
        "method":"tools/call",
        "params":{
            "name":"search_web",
            "arguments":{"query":"allowed","query":"different"}
        }
    }"#;
    let rejected = parse_jsonrpc_body_with_options(
        decode(duplicate),
        mcp_options(McpProtocolVersion::V2025_11_25),
    );
    assert!(rejected.calls.is_empty());
    assert_eq!(
        rejected.error.as_ref().map(JsonRpcInspectionError::kind),
        Some(JsonRpcInspectionErrorKind::InvalidJson)
    );

    let distinct_objects = br#"{
        "jsonrpc":"2.0",
        "id":1,
        "method":"tools/call",
        "params":{
            "name":"search_web",
            "arguments":{"left":{"value":1},"right":{"value":2}}
        }
    }"#;
    let accepted = parse_jsonrpc_body_with_options(
        decode(distinct_objects),
        mcp_options(McpProtocolVersion::V2025_11_25),
    );
    assert!(
        accepted.error.is_none(),
        "keys may repeat in different objects: {accepted:?}"
    );
}

#[test]
fn ignores_params_when_extracting_method() {
    let body = br#"{"jsonrpc":"2.0","id":1,"method":"reports.search","params":{"query":"quarterly","filters":{"scope":"workspace/main"}}}"#;
    let info = parse_jsonrpc_body(decode(body), JsonRpcInspectionMode::JsonRpc);
    assert!(info.error.is_none());
    assert_eq!(
        info.calls.first().map(|call| call.method.as_str()),
        Some("reports.search")
    );
    let call = info.calls.first().expect("single request call");
    assert!(call.params.is_empty());
    assert!(call.tool.is_none());
}

#[test]
fn ignores_dotted_param_collisions_for_generic_jsonrpc() {
    let body = br#"{"jsonrpc":"2.0","id":1,"method":"reports.search","params":{"filters.scope":{"value":"literal"},"filters":{"scope.value":"nested"}}}"#;
    let info = parse_jsonrpc_body(decode(body), JsonRpcInspectionMode::JsonRpc);

    assert!(info.error.is_none(), "params should be ignored: {info:?}");
    assert_eq!(
        info.calls.first().map(|call| call.method.as_str()),
        Some("reports.search")
    );
    assert!(
        info.calls
            .first()
            .is_some_and(|call| call.params.is_empty() && call.tool.is_none())
    );
}

#[test]
fn mcp_mode_validates_known_methods_and_extracts_tool() {
    let body = br#"{"jsonrpc":"2.0","id":1,"method":"tools/call","params":{"name":"search_web","arguments":{"query":"openshell"}}}"#;
    let info =
        parse_jsonrpc_body_with_options(decode(body), mcp_options(McpProtocolVersion::V2025_11_25));

    assert!(info.error.is_none(), "expected valid MCP call: {info:?}");
    let call = info.calls.first().expect("single MCP call");
    assert_eq!(call.method, "tools/call");
    assert_eq!(call.tool.as_deref(), Some("search_web"));
    assert_eq!(
        call.params.get("name").map(String::as_str),
        Some("search_web")
    );
    assert_eq!(call.params.len(), 1);
    assert_eq!(
        call.mcp_classification,
        Some(McpMethodClassification::Available)
    );
    assert_eq!(info.mcp_revision, Some(McpProtocolVersion::V2025_11_25));
}

#[test]
fn mcp_mode_rejects_non_recommended_tool_names_by_default() {
    let body = br#"{"jsonrpc":"2.0","id":1,"method":"tools/call","params":{"name":"read status","arguments":{}}}"#;
    let info =
        parse_jsonrpc_body_with_options(decode(body), mcp_options(McpProtocolVersion::V2025_11_25));

    assert!(info.calls.is_empty());
    assert!(
        info.error
            .as_ref()
            .map(JsonRpcInspectionError::detail)
            .is_some_and(|error| error.contains("strict_tool_names")),
        "expected strict tool-name error, got {info:?}"
    );
}

#[test]
fn mcp_mode_can_disable_strict_tool_names() {
    let body = br#"{"jsonrpc":"2.0","id":1,"method":"tools/call","params":{"name":"read status","arguments":{}}}"#;
    let info = parse_jsonrpc_body_with_options(
        decode(body),
        JsonRpcInspectionOptions::mcp_selected(McpProtocolVersion::V2025_11_25, false),
    );

    let call = info
        .calls
        .first()
        .expect("permissive MCP call should parse");
    assert!(info.error.is_none(), "permissive MCP call failed: {info:?}");
    assert_eq!(call.tool.as_deref(), Some("read status"));
    assert_eq!(
        call.params.get("name").map(String::as_str),
        Some("read status")
    );
}

#[test]
fn mcp_mode_rejects_invalid_known_method_params() {
    let body = br#"{"jsonrpc":"2.0","id":1,"method":"tools/call","params":{"arguments":{"query":"openshell"}}}"#;
    let info =
        parse_jsonrpc_body_with_options(decode(body), mcp_options(McpProtocolVersion::V2025_11_25));

    assert!(info.calls.is_empty());
    assert_eq!(
        info.error.as_ref().map(JsonRpcInspectionError::kind),
        Some(JsonRpcInspectionErrorKind::InvalidMessage)
    );
    assert!(
        info.error
            .as_ref()
            .map(JsonRpcInspectionError::detail)
            .is_some_and(|error| error.contains("invalid `tools/call` params")),
        "expected MCP params validation error, got {info:?}"
    );
}

#[test]
fn mcp_mode_allows_unknown_extension_methods() {
    let body =
        br#"{"jsonrpc":"2.0","id":1,"method":"vendor/extension","params":{"name":"custom"}}"#;
    let info =
        parse_jsonrpc_body_with_options(decode(body), mcp_options(McpProtocolVersion::V2025_06_18));

    assert!(
        info.error.is_none(),
        "extension method should remain addressable"
    );
    assert_eq!(
        info.calls.first().map(|call| call.method.as_str()),
        Some("vendor/extension")
    );
    assert!(info.calls.first().is_some_and(|call| call.params.is_empty()
        && call.tool.is_none()
        && call.mcp_classification == Some(McpMethodClassification::Extension)));
}

#[test]
fn mcp_mode_ignores_tool_arguments_when_extracting_policy_params() {
    let body = br#"{"jsonrpc":"2.0","id":1,"method":"tools/call","params":{"name":"read_status","arguments":{"scope.key":"literal","scope":{"key":"nested"}}}}"#;
    let info =
        parse_jsonrpc_body_with_options(decode(body), mcp_options(McpProtocolVersion::V2025_11_25));
    let call = info.calls.first().expect("single MCP call");

    assert!(info.error.is_none(), "expected valid MCP call: {info:?}");
    assert_eq!(call.tool.as_deref(), Some("read_status"));
    assert_eq!(
        call.params.get("name").map(String::as_str),
        Some("read_status")
    );
    assert_eq!(call.params.len(), 1);
}

#[test]
fn accepts_any_valid_jsonrpc_params_shape() {
    let body =
        br#"{"jsonrpc":"2.0","id":1,"method":"reports.search","params":["ignored",{"nested":true}]}"#;
    let info = parse_jsonrpc_body(decode(body), JsonRpcInspectionMode::JsonRpc);

    assert!(info.error.is_none());
    assert_eq!(
        info.calls.first().map(|call| call.method.as_str()),
        Some("reports.search")
    );
    assert!(
        info.calls
            .first()
            .is_some_and(|call| call.params.is_empty() && call.tool.is_none())
    );
}

#[test]
fn recognizes_streamable_http_get_receive_streams() {
    let request = L7Request {
        action: "GET".to_string(),
        target: "/rpc".to_string(),
        raw_header: b"GET /rpc HTTP/1.1\r\nHost: jsonrpc.test\r\nAccept: application/json, text/event-stream\r\n\r\n".to_vec(),
        body_length: BodyLength::Absent,
    };

    assert!(jsonrpc_receive_stream_request(&request));

    let info = JsonRpcRequestInfo::receive_stream();
    assert!(info.receive_stream);
    assert!(info.error.is_none());
    assert!(info.calls.is_empty());
}

#[test]
fn bodyless_get_without_sse_accept_is_not_receive_stream() {
    let request = L7Request {
        action: "GET".to_string(),
        target: "/rpc".to_string(),
        raw_header:
            b"GET /rpc HTTP/1.1\r\nHost: jsonrpc.test\r\nAccept: application/json\r\n\r\n"
                .to_vec(),
        body_length: BodyLength::Absent,
    };

    assert!(!jsonrpc_receive_stream_request(&request));
}

#[test]
fn rejects_requests_missing_jsonrpc_version() {
    let body = br#"{"id":1,"method":"reports.list"}"#;
    let info = parse_jsonrpc_body(decode(body), JsonRpcInspectionMode::JsonRpc);

    assert!(info.calls.is_empty());
    assert_eq!(
        info.error.as_ref().map(JsonRpcInspectionError::detail),
        Some("missing or non-string 'jsonrpc' field")
    );
}

#[test]
fn rejects_batch_items_missing_jsonrpc_version() {
    let body = br#"[
        {"jsonrpc":"2.0","id":1,"method":"reports.list"},
        {"id":2,"method":"reports.search","params":{"query":"quarterly"}}
    ]"#;
    let info = parse_jsonrpc_body(decode(body), JsonRpcInspectionMode::JsonRpc);

    assert!(info.calls.is_empty());
    assert!(info.is_batch);
    assert_eq!(
        info.error.as_ref().map(JsonRpcInspectionError::detail),
        Some("batch item invalid: missing or non-string 'jsonrpc' field")
    );
}

#[test]
fn rejects_unsupported_jsonrpc_version() {
    let body = br#"{"jsonrpc":"1.0","id":1,"method":"reports.list"}"#;
    let info = parse_jsonrpc_body(decode(body), JsonRpcInspectionMode::JsonRpc);

    assert!(info.calls.is_empty());
    assert_eq!(
        info.error.as_ref().map(JsonRpcInspectionError::detail),
        Some("unsupported JSON-RPC version '1.0'")
    );
}

#[test]
fn parses_valid_batch_without_error() {
    let body = br#"[
        {"jsonrpc":"2.0","id":1,"method":"reports.list"},
        {"jsonrpc":"2.0","id":2,"method":"reports.search","params":{"query":"quarterly"}}
    ]"#;
    let info = parse_jsonrpc_body(decode(body), JsonRpcInspectionMode::JsonRpc);
    assert!(info.error.is_none());
    assert!(info.is_batch);
    assert!(!info.has_response);
    assert_eq!(info.calls.len(), 2);
    assert_eq!(info.calls[0].method, "reports.list");
    assert_eq!(info.calls[1].method, "reports.search");
}

#[test]
fn mcp_batch_acceptance_follows_the_selected_revision() {
    let body = br#"[
        {"jsonrpc":"2.0","id":1,"method":"tools/call","params":{"name":"read_status","arguments":{}}},
        {"jsonrpc":"2.0","id":2,"method":"tools/call","params":{"name":"search_web","arguments":{"query":"openshell"}}}
    ]"#;
    let march =
        parse_jsonrpc_body_with_options(decode(body), mcp_options(McpProtocolVersion::V2025_03_26));

    assert!(
        march.error.is_none(),
        "March MCP batch should be valid: {march:?}"
    );
    assert!(march.is_batch);
    assert_eq!(march.calls.len(), 2);
    assert_eq!(march.calls[0].tool.as_deref(), Some("read_status"));
    assert_eq!(march.calls[1].tool.as_deref(), Some("search_web"));

    for revision in [
        McpProtocolVersion::V2025_06_18,
        McpProtocolVersion::V2025_11_25,
    ] {
        let info = parse_jsonrpc_body_with_options(decode(body), mcp_options(revision));
        assert!(info.calls.is_empty());
        assert!(info.is_batch);
        assert_eq!(
            info.error.as_ref().map(JsonRpcInspectionError::kind),
            Some(JsonRpcInspectionErrorKind::McpProfileViolation),
            "revision {} must reject batches: {info:?}",
            revision.as_str()
        );
    }
}

#[test]
fn march_batch_limit_counts_all_top_level_messages() {
    let mut messages = (0..MAX_MCP_LEGACY_BATCH_MESSAGES)
        .map(result_message)
        .collect::<Vec<_>>();
    let at_limit = serde_json::to_vec(&serde_json::Value::Array(messages.clone()))
        .expect("serialize in-bound MCP batch fixture");
    let accepted = parse_jsonrpc_body_with_options(
        decode(&at_limit),
        mcp_options(McpProtocolVersion::V2025_03_26),
    );
    assert!(
        accepted.error.is_none(),
        "64-member March batch should be accepted: {accepted:?}"
    );

    messages.push(result_message(MAX_MCP_LEGACY_BATCH_MESSAGES));
    let over_limit = serde_json::to_vec(&serde_json::Value::Array(messages))
        .expect("serialize over-limit MCP batch fixture");
    let info = parse_jsonrpc_body_with_options(
        decode(&over_limit),
        mcp_options(McpProtocolVersion::V2025_03_26),
    );

    assert!(info.calls.is_empty());
    assert!(info.is_batch);
    assert_eq!(
        info.error.as_ref().map(JsonRpcInspectionError::kind),
        Some(JsonRpcInspectionErrorKind::McpProfileViolation)
    );
    assert!(
        info.error
            .as_ref()
            .is_some_and(|error| error.detail().contains("maximum is 64")),
        "expected total-message batch bound, got {info:?}"
    );
}

#[test]
fn initialize_proposal_is_not_treated_as_an_effective_revision() {
    let body = br#"{
        "jsonrpc":"2.0",
        "id":"bootstrap-1",
        "method":"initialize",
        "params":{
            "protocolVersion":"2099-12-31",
            "capabilities":{},
            "clientInfo":{"name":"test-client","version":"1.0"}
        }
    }"#;
    let info =
        parse_jsonrpc_body_with_options(decode(body), JsonRpcInspectionOptions::mcp_bootstrap(true));

    assert!(info.error.is_none(), "initialize should parse: {info:?}");
    assert_eq!(info.calls.len(), 1);
    assert_eq!(info.calls[0].method, "initialize");
    assert_eq!(
        info.calls[0].mcp_classification,
        Some(McpMethodClassification::Available)
    );
    assert_eq!(info.mcp_revision, None);
}

#[test]
fn non_initialize_mcp_requires_a_transport_selected_revision() {
    let body = br#"{"jsonrpc":"2.0","id":1,"method":"tools/list","params":{}}"#;
    let info =
        parse_jsonrpc_body_with_options(decode(body), JsonRpcInspectionOptions::mcp_bootstrap(true));

    assert!(info.calls.is_empty());
    assert_eq!(
        info.error.as_ref().map(JsonRpcInspectionError::kind),
        Some(JsonRpcInspectionErrorKind::RevisionNotSelected)
    );
}

#[test]
fn known_method_unavailable_in_selected_revision_is_rejected() {
    let body = br#"{"jsonrpc":"2.0","id":1,"method":"tasks/get","params":{"taskId":"task-1"}}"#;
    let info =
        parse_jsonrpc_body_with_options(decode(body), mcp_options(McpProtocolVersion::V2025_06_18));

    assert!(info.calls.is_empty());
    assert_eq!(
        info.error.as_ref().map(JsonRpcInspectionError::kind),
        Some(JsonRpcInspectionErrorKind::McpProfileViolation)
    );
    assert!(
        info.error
            .as_ref()
            .is_some_and(|error| error.detail().contains("tasks/get")),
        "expected unavailable-method evidence, got {info:?}"
    );
}

#[test]
fn server_originated_method_is_rejected_in_client_to_server_direction() {
    let body = br#"{
        "jsonrpc":"2.0",
        "id":1,
        "method":"sampling/createMessage",
        "params":{"messages":[],"maxTokens":1}
    }"#;
    let info =
        parse_jsonrpc_body_with_options(decode(body), mcp_options(McpProtocolVersion::V2025_03_26));

    assert!(info.calls.is_empty());
    assert_eq!(
        info.error.as_ref().map(JsonRpcInspectionError::kind),
        Some(JsonRpcInspectionErrorKind::McpProfileViolation)
    );
    assert!(
        info.error
            .as_ref()
            .is_some_and(|error| error.detail().contains("client-to-server")),
        "expected direction mismatch evidence, got {info:?}"
    );
}

#[test]
fn mcp_initialize_is_not_valid_in_a_batch() {
    let body = br#"[
        {"jsonrpc":"2.0","id":1,"method":"initialize","params":{"protocolVersion":"2025-11-25","capabilities":{},"clientInfo":{"name":"test","version":"1"}}},
        {"jsonrpc":"2.0","id":2,"method":"tools/call","params":{"name":"read_status","arguments":{}}}
    ]"#;
    let info =
        parse_jsonrpc_body_with_options(decode(body), JsonRpcInspectionOptions::mcp_bootstrap(true));

    assert!(info.is_batch);
    assert!(info.calls.is_empty());
    assert!(!info.has_response);
    assert_eq!(
        info.error.as_ref().map(JsonRpcInspectionError::detail),
        Some("MCP `initialize` must be exactly one non-batched request")
    );
}

#[test]
fn generic_jsonrpc_keeps_batch_initialize_behavior() {
    let body = br#"[
        {"jsonrpc":"2.0","id":1,"method":"initialize","params":{}},
        {"jsonrpc":"2.0","id":2,"method":"reports.list","params":{}}
    ]"#;
    let info = parse_jsonrpc_body(decode(body), JsonRpcInspectionMode::JsonRpc);

    assert!(
        info.error.is_none(),
        "generic batch should remain valid: {info:?}"
    );
    assert!(info.is_batch);
    assert_eq!(info.calls.len(), 2);
}

#[test]
fn parses_batch_with_calls_and_responses() {
    let body = br#"[
        {"jsonrpc":"2.0","id":1,"method":"reports.list"},
        {"jsonrpc":"2.0","id":2,"result":{"ok":true}}
    ]"#;
    let info = parse_jsonrpc_body(decode(body), JsonRpcInspectionMode::JsonRpc);

    assert!(info.error.is_none());
    assert!(info.is_batch);
    assert!(info.has_response);
    assert_eq!(info.calls.len(), 1);
    assert_eq!(info.calls[0].method, "reports.list");
}

#[test]
fn rejects_invalid_jsonrpc_response_body() {
    let body =
        br#"{"jsonrpc":"2.0","id":1,"result":{},"error":{"code":-32603,"message":"failed"}}"#;
    let info = parse_jsonrpc_body(decode(body), JsonRpcInspectionMode::JsonRpc);

    assert!(info.calls.is_empty());
    assert!(!info.has_response);
    assert_eq!(
        info.error.as_ref().map(JsonRpcInspectionError::detail),
        Some("JSON-RPC response includes both result and error")
    );
}

#[test]
fn rejects_message_with_method_and_result_or_error() {
    let result_body = br#"{"jsonrpc":"2.0","id":1,"method":"initialize","result":{}}"#;
    let result_info = parse_jsonrpc_body(decode(result_body), JsonRpcInspectionMode::JsonRpc);
    assert!(result_info.calls.is_empty());
    assert_eq!(
        result_info
            .error
            .as_ref()
            .map(JsonRpcInspectionError::detail),
        Some("JSON-RPC message includes both method and result/error")
    );

    let error_body = br#"{"jsonrpc":"2.0","id":1,"method":"initialize","error":{"code":-32603,"message":"failed"}}"#;
    let error_info = parse_jsonrpc_body(decode(error_body), JsonRpcInspectionMode::JsonRpc);
    assert!(error_info.calls.is_empty());
    assert_eq!(
        error_info
            .error
            .as_ref()
            .map(JsonRpcInspectionError::detail),
        Some("JSON-RPC message includes both method and result/error")
    );
}

#[test]
fn rejects_batch_item_with_method_and_result() {
    let body = br#"[
        {"jsonrpc":"2.0","id":1,"method":"reports.list"},
        {"jsonrpc":"2.0","id":2,"method":"initialize","result":{}}
    ]"#;
    let info = parse_jsonrpc_body(decode(body), JsonRpcInspectionMode::JsonRpc);

    assert!(info.calls.is_empty());
    assert!(info.is_batch);
    assert_eq!(
        info.error.as_ref().map(JsonRpcInspectionError::detail),
        Some("batch item invalid: JSON-RPC message includes both method and result/error")
    );
}

fn request(method: &str, headers: &str) -> L7Request {
    L7Request {
        action: method.to_string(),
        target: "/mcp".to_string(),
        raw_header: format!("{method} /mcp HTTP/1.1\r\nHost: example.test\r\n{headers}\r\n")
            .into_bytes(),
        body_length: BodyLength::Absent,
    }
}

fn request_info(body: &[u8]) -> JsonRpcRequestInfo {
    parse_jsonrpc_body(decode(body), JsonRpcInspectionMode::Mcp)
}

#[test]
fn standalone_initialize_uses_body_negotiation_only() {
    let info = request_info(
        br#"{"jsonrpc":"2.0","id":1,"method":"initialize","params":{"protocolVersion":"2025-11-25","capabilities":{},"clientInfo":{"name":"test","version":"1"}}}"#,
    );

    assert_eq!(
        select_request_protocol_version(&request("POST", ""), &info, &[]),
        Ok(McpRequestProtocolVersion::Initialization)
    );
}

#[test]
fn initialize_notification_is_not_treated_as_initialization() {
    let info = request_info(br#"{"jsonrpc":"2.0","method":"initialize","params":{}}"#);

    assert_eq!(
        select_request_protocol_version(
            &request("POST", ""),
            &info,
            &[McpProtocolVersion::V2025_03_26]
        ),
        Ok(McpRequestProtocolVersion::Selected(
            McpProtocolVersion::V2025_03_26
        ))
    );
}

#[test]
fn subsequent_requests_select_exact_header_for_every_http_method() {
    let info = request_info(br#"{"jsonrpc":"2.0","id":1,"method":"tools/list"}"#);

    for method in ["POST", "GET", "DELETE"] {
        assert_eq!(
            select_request_protocol_version(
                &request(method, "MCP-Protocol-Version: 2025-11-25\r\n"),
                &info,
                &[McpProtocolVersion::V2025_11_25]
            ),
            Ok(McpRequestProtocolVersion::Selected(
                McpProtocolVersion::V2025_11_25
            )),
            "method {method} must use the same per-request selection"
        );
    }
}

#[test]
fn missing_header_uses_only_the_legacy_specification_fallback() {
    let info = request_info(br#"{"jsonrpc":"2.0","id":1,"method":"tools/list"}"#);

    assert_eq!(
        select_request_protocol_version(
            &request("POST", ""),
            &info,
            &[McpProtocolVersion::V2025_03_26]
        ),
        Ok(McpRequestProtocolVersion::Selected(
            McpProtocolVersion::V2025_03_26
        ))
    );
    assert_eq!(
        select_request_protocol_version(
            &request("POST", ""),
            &info,
            &[McpProtocolVersion::V2025_11_25]
        ),
        Err(McpProtocolVersionError::NotAllowed(
            McpProtocolVersion::V2025_03_26
        ))
    );
}

#[test]
fn repeated_or_empty_headers_are_bad_requests() {
    let info = request_info(br#"{"jsonrpc":"2.0","id":1,"method":"tools/list"}"#);

    for headers in [
        "MCP-Protocol-Version:\r\n",
        "MCP-Protocol-Version: 2025-11-25\r\nMCP-Protocol-Version: 2025-11-25\r\n",
        "MCP-Protocol-Version: 2025-03-26\r\nmcp-protocol-version: 2025-11-25\r\n",
    ] {
        assert_eq!(
            select_request_protocol_version(
                &request("POST", headers),
                &info,
                &[McpProtocolVersion::V2025_11_25]
            ),
            Err(McpProtocolVersionError::InvalidHeader)
        );
    }
}

#[test]
fn unsupported_or_non_exact_header_values_are_bad_requests() {
    let info = request_info(br#"{"jsonrpc":"2.0","id":1,"method":"tools/list"}"#);

    for value in [
        "2026-07-28",
        "2025-11-25, 2025-03-26",
        "2025-11-25x",
        "\u{00a0}2025-11-25",
    ] {
        assert_eq!(
            select_request_protocol_version(
                &request("POST", &format!("MCP-Protocol-Version: {value}\r\n")),
                &info,
                &[McpProtocolVersion::V2025_11_25]
            ),
            Err(McpProtocolVersionError::UnsupportedHeaderValue)
        );
    }
}

#[test]
fn supported_but_disallowed_header_is_forbidden() {
    let info = request_info(br#"{"jsonrpc":"2.0","id":1,"method":"tools/list"}"#);

    let error = select_request_protocol_version(
        &request("POST", "MCP-Protocol-Version: 2025-06-18\r\n"),
        &info,
        &[McpProtocolVersion::V2025_11_25],
    )
    .expect_err("supported revision is outside endpoint policy");
    assert_eq!(
        error,
        McpProtocolVersionError::NotAllowed(McpProtocolVersion::V2025_06_18)
    );
    assert_eq!(error.http_status(), "403 Forbidden");
}

fn post(head: &str, body: &str, body_length: BodyLength) -> L7Request {
    L7Request {
        action: "POST".to_string(),
        target: "/rpc".to_string(),
        raw_header: format!("{head}{body}").into_bytes(),
        body_length,
    }
}

#[test]
fn buffered_body_must_match_its_framing() {
    let head = "POST /rpc HTTP/1.1\r\nHost: example.test\r\n\r\n";
    let framed = post(head, "{}", BodyLength::ContentLength(2));
    match buffered_jsonrpc_body(&framed) {
        Ok(BufferedRequest::Body(body)) => assert_eq!(body, b"{}".to_vec()),
        other => panic!("expected a body, got {other:?}"),
    }

    let unterminated = post("POST /rpc HTTP/1.1\r\n", "", BodyLength::ContentLength(0));
    assert!(matches!(
        buffered_jsonrpc_body(&unterminated),
        Err(BufferedBodyError::MissingTerminator)
    ));
    let short = post(head, "{}", BodyLength::ContentLength(3));
    assert!(matches!(
        buffered_jsonrpc_body(&short),
        Err(BufferedBodyError::LengthMismatch)
    ));
    let unframed = post(head, "{}", BodyLength::Absent);
    assert!(matches!(
        buffered_jsonrpc_body(&unframed),
        Err(BufferedBodyError::UnframedBytes)
    ));
    let chunked = post(head, "2\r\n{}\r\n0\r\n\r\n", BodyLength::Chunked);
    assert!(matches!(
        buffered_jsonrpc_body(&chunked),
        Err(BufferedBodyError::ChunkedFraming)
    ));
}

#[test]
fn buffered_request_is_inspected() {
    let body = r#"{"jsonrpc":"2.0","id":1,"method":"reports.list"}"#;
    let head = "POST /rpc HTTP/1.1\r\nHost: example.test\r\n\r\n";
    let request = post(head, body, BodyLength::ContentLength(body.len() as u64));
    let info = inspect_buffered_jsonrpc_http_request(
        &request,
        decode(body.as_bytes()),
        JsonRpcInspectionOptions::for_mode(JsonRpcInspectionMode::JsonRpc),
    )
    .expect("framed request");
    assert_eq!(info.calls.len(), 1);
    assert_eq!(info.calls[0].method, "reports.list");
    assert!(!info.calls[0].is_notification);
}

#[test]
fn event_stream_request_needs_no_body() {
    let request = L7Request {
        action: "GET".to_string(),
        target: "/rpc".to_string(),
        raw_header: b"GET /rpc HTTP/1.1\r\nAccept: text/event-stream\r\n\r\n".to_vec(),
        body_length: BodyLength::Absent,
    };
    let info = inspect_buffered_jsonrpc_http_request(
        &request,
        None,
        JsonRpcInspectionOptions::mcp_bootstrap(true),
    )
    .expect("receive stream");
    assert!(info.receive_stream);
}

#[test]
fn rejection_reason_names_the_detail() {
    let info = parse_jsonrpc_body(decode(b"{"), JsonRpcInspectionMode::JsonRpc);
    assert_eq!(
        info.error.expect("inspection failure").rejection_reason(),
        "JSON-RPC request rejected: invalid JSON"
    );
}

#[test]
fn lifecycle_message_must_stand_alone() {
    let notification = parse_jsonrpc_body_with_options(
        decode(br#"[{"jsonrpc":"2.0","id":1,"method":"initialize","params":{}}]"#),
        JsonRpcInspectionOptions::mcp_bootstrap(true),
    );
    assert_eq!(
        notification.error.as_ref().map(JsonRpcInspectionError::kind),
        Some(JsonRpcInspectionErrorKind::McpLifecycleViolation)
    );
}

#[test]
fn mode_follows_protocol() {
    assert_eq!(
        JsonRpcInspectionMode::for_protocol(L7Protocol::Mcp),
        JsonRpcInspectionMode::Mcp
    );
    assert_eq!(
        JsonRpcInspectionMode::for_protocol(L7Protocol::JsonRpc),
        JsonRpcInspectionMode::JsonRpc
    );
    assert_eq!(L7Protocol::parse("JSON-RPC"), Some(L7Protocol::JsonRpc));
    assert_eq!(L7Protocol::parse("tcp"), None);
}

#[test]
fn revisions_read_back_from_their_dates() {
    for revision in [
        McpProtocolVersion::V2025_03_26,
        McpProtocolVersion::V2025_06_18,
        McpProtocolVersion::V2025_11_25,
    ] {
        assert_eq!(McpProtocolVersion::parse(revision.as_str()), Some(revision));
    }
    assert!(McpProtocolVersion::V2025_03_26.allows_json_rpc_batches());
    assert!(!McpProtocolVersion::V2025_11_25.allows_json_rpc_batches());
}

#[test]
fn protocol_version_errors_have_statuses_and_codes() {
    let invalid = McpProtocolVersionError::InvalidHeader;
    assert_eq!(invalid.http_status(), "400 Bad Request");
    let unsupported = McpProtocolVersionError::UnsupportedHeaderValue;
    assert_eq!(unsupported.http_status(), "400 Bad Request");
    let disallowed = McpProtocolVersionError::NotAllowed(McpProtocolVersion::V2025_03_26);
    assert_eq!(disallowed.http_status(), "403 Forbidden");
    assert_ne!(invalid.response_code(), disallowed.response_code());
    assert!(!invalid.message().is_empty());
}

#[test]
fn decimal_text_is_read_as_a_number_only() {
    let request = "[{\"jsonrpc\":\"2.0\",\"id\":1,\"method\":\"tools/list\"}]";
    for text in [request, "{}", "no number", ""] {
        let value = JsonValue::Number(JsonNumber::Decimal(text.to_string()));
        let info = parse_jsonrpc_body_with_options(
            Some(value),
            mcp_options(McpProtocolVersion::V2025_03_26),
        );
        assert!(info.error.is_some(), "{text}");
        assert!(info.calls.is_empty(), "{text}");
        assert!(!info.is_batch, "{text}");
    }
}
