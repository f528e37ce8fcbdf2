//! What holds of every inspected request.

use crate::json::Json;
use crate::l7::jsonrpc;
use crate::l7::jsonrpc::{CallModel, JsonRpcInspectionMode, JsonRpcInspectionOptions};
use crate::l7::mcp_inspection;
use crate::l7::mcp_inspection::PayloadModel;
use crate::l7::mcp_payload;
use crate::l7::mcp_payload::InspectedCallModel;
use crate::l7::protocol::{McpProtocolVersion, MAX_MCP_LEGACY_BATCH_MESSAGES};
use vstd::prelude::*;

verus! {

/// A request that is rejected shows no calls, no response and no revision, so
/// that nothing of it can be authorized.
pub proof fn rejected_request_shows_nothing(
    decoded: Option<Json>,
    options: JsonRpcInspectionOptions,
)
    ensures
        jsonrpc::request_info(decoded, options).error is Some ==> {
            &&& jsonrpc::request_info(decoded, options).calls.len() == 0
            &&& !jsonrpc::request_info(decoded, options).has_response
            &&& jsonrpc::request_info(decoded, options).mcp_revision is None
        },
        !jsonrpc::request_info(decoded, options).receive_stream,
{
}

/// A body with a duplicate key anywhere is rejected before any of it is
/// interpreted, whatever the options.
pub proof fn duplicate_key_is_rejected_in_every_mode(
    decoded: Option<Json>,
    a: JsonRpcInspectionOptions,
    b: JsonRpcInspectionOptions,
)
    requires
        jsonrpc::unique_value(decoded) is Err,
    ensures
        jsonrpc::request_info(decoded, a).error is Some,
        jsonrpc::request_info(decoded, a) == jsonrpc::request_info(decoded, b),
{
}

proof fn lemma_generic_calls(items: Seq<Json>)
    ensures
        forall|i: int|
            0 <= i < jsonrpc::calls_in(items).len() ==> is_generic(
                #[trigger] jsonrpc::calls_in(items)[i],
            ),
    decreases items.len(),
{
    if items.len() > 0 {
        lemma_generic_calls(items.drop_last());
        let before = jsonrpc::calls_in(items.drop_last());
        let all = jsonrpc::calls_in(items);
        assert forall|i: int| 0 <= i < all.len() implies is_generic(#[trigger] all[i]) by {
            if i < before.len() {
                assert(all[i] == before[i]);
            }
        }
    }
}

/// Whether a call shows its method and nothing else to policy.
pub open spec fn is_generic(call: CallModel) -> bool {
    &&& call.params == Map::<Seq<char>, Seq<char>>::empty()
    &&& call.tool is None
    &&& call.mcp_classification is None
}

/// Generic JSON-RPC calls show policy their methods only: params, whatever
/// their shape, are ignored.
pub proof fn generic_calls_show_methods_only(
    decoded: Option<Json>,
    options: JsonRpcInspectionOptions,
)
    requires
        options.mode == JsonRpcInspectionMode::JsonRpc,
    ensures
        forall|i: int|
            0 <= i < jsonrpc::request_info(decoded, options).calls.len() ==> is_generic(
                #[trigger] jsonrpc::request_info(decoded, options).calls[i],
            ),
        jsonrpc::request_info(decoded, options).mcp_revision is None,
{
    if let Ok(Json::Array(items)) = jsonrpc::unique_value(decoded) {
        lemma_generic_calls(items);
    }
}

/// Without a selected revision MCP inspection admits one request only: an
/// `initialize` request that stands alone.
pub proof fn unselected_revision_admits_only_initialize(
    value: Json,
    options: JsonRpcInspectionOptions,
)
    requires
        options.mcp_revision is None,
        mcp_payload::mcp_info(value, options).error is None,
    ensures
        mcp_payload::mcp_info(value, options).calls.len() == 1,
        mcp_payload::mcp_info(value, options).calls[0].method == "initialize"@,
        !mcp_payload::mcp_info(value, options).calls[0].is_notification,
        !mcp_payload::mcp_info(value, options).is_batch,
        mcp_payload::mcp_info(value, options).mcp_revision is None,
{
}

/// The revision that an `initialize` request proposes is not taken as the
/// effective one: a request is inspected under the revision that the
/// transport selected, or under none.
pub proof fn effective_revision_is_the_selected_one(
    value: Json,
    options: JsonRpcInspectionOptions,
)
    ensures
        mcp_payload::mcp_info(value, options).mcp_revision is Some
            ==> mcp_payload::mcp_info(value, options).mcp_revision == options.mcp_revision,
{
}

/// A batch is admitted only under a revision that has batches, with no more
/// messages than the limit, responses included, and without `initialize`.
pub proof fn admitted_batch_keeps_to_its_revision(
    value: Json,
    options: JsonRpcInspectionOptions,
    messages: Seq<mcp_inspection::EnvelopeModel>,
)
    requires
        mcp_inspection::json_rpc_payload(value) == Ok::<PayloadModel, Seq<char>>(
            PayloadModel::Batch(messages),
        ),
        mcp_payload::mcp_info(value, options).error is None,
    ensures
        options.mcp_revision matches Some(revision) && revision.permits_batches(),
        messages.len() <= MAX_MCP_LEGACY_BATCH_MESSAGES,
        !mcp_payload::contains_method(PayloadModel::Batch(messages), "initialize"@),
{
}

/// Whether a call shows policy its tool and no other param, and keeps to
/// strict tool names where they are enforced.
pub open spec fn shows_tool_only(call: CallModel, strict: bool) -> bool {
    &&& call.params == jsonrpc::tool_params(call.tool)
    &&& call.mcp_classification is Some
    &&& strict && (call.tool is Some) ==> mcp_payload::is_strict_tool_name(call.tool->Some_0)
}

proof fn lemma_calls_show_tools(
    list: Seq<InspectedCallModel>,
    strict: bool,
    revision: McpProtocolVersion,
)
    ensures
        mcp_payload::calls_from(list, strict, revision) matches Ok(calls) ==> forall|i: int|
            0 <= i < calls.len() ==> shows_tool_only(#[trigger] calls[i], strict),
    decreases list.len(),
{
    if list.len() > 0 {
        lemma_calls_show_tools(list.drop_last(), strict, revision);
        if let Ok(calls) = mcp_payload::calls_from(list, strict, revision) {
            assert(calls.last() == mcp_payload::call_of(list.last(), strict, revision)->Ok_0);
        }
    }
}

/// MCP calls show policy their methods, a classification, and the tool name as
/// the only param; tool arguments are never shown. Where strict tool names are
/// enforced, every tool name that is shown keeps to them.
pub proof fn mcp_calls_show_tools_only(value: Json, options: JsonRpcInspectionOptions)
    ensures
        forall|i: int|
            0 <= i < mcp_payload::mcp_info(value, options).calls.len() ==> shows_tool_only(
                #[trigger] mcp_payload::mcp_info(value, options).calls[i],
                options.mcp_strict_tool_names,
            ),
{
    if let Ok(payload) = mcp_inspection::json_rpc_payload(value) {
        if let Some(revision) = options.mcp_revision {
            if let Ok(methods) = mcp_payload::revision_methods(
                value,
                payload,
                revision,
                mcp_inspection::McpDirection::ClientToServer,
            ) {
                lemma_calls_show_tools(
                    mcp_payload::with_tools(payload, methods),
                    options.mcp_strict_tool_names,
                    revision,
                );
            }
        }
    }
    assert(jsonrpc::tool_params(None) =~= Map::<Seq<char>, Seq<char>>::empty());
}

} // verus!
