//! What holds of every MCP request: its revision, its calls and its limits.

use crate::bytes;
use crate::json::Json;
use crate::l7::duplicate;
use crate::l7::jsonrpc;
use crate::l7::jsonrpc::{
    CallModel, ErrorModel, InfoModel, JsonRpcInspectionErrorKind, JsonRpcInspectionOptions,
    McpMethodClassification,
};
use crate::l7::mcp;
use crate::l7::mcp::{McpProtocolVersionError, McpRequestProtocolVersion};
use crate::l7::mcp_inspection;
use crate::l7::mcp_inspection::{
    EnvelopeModel, FailureModel, McpDirection, McpFailureKind, MethodAvailability, MethodModel,
    PayloadModel,
};
use crate::l7::mcp_payload;
use crate::l7::protocol::{L7Protocol, McpProtocolVersion};
use crate::text;
use crate::text::CharClass;
use crate::text_laws;
use crate::numeral;
use crate::numeral::Base;
use vstd::prelude::*;

verus! {

/// An object with two entries under one key is found out, whatever stands in it.
pub proof fn duplicate_key_is_found(
    object: Seq<(Seq<char>, Json)>,
    path: Seq<char>,
    i: int,
    j: int,
)
    requires
        0 <= i < j < object.len(),
        object[i].0 == object[j].0,
    ensures
        duplicate::first_duplicate(Json::Object(object), path) is Some,
{
    duplicate::duplicates_are_found_at_any_depth(Json::Object(object), path);
}

/// A duplicate key below an item or a member is found out as well.
pub proof fn duplicate_key_below_is_found(
    items: Seq<Json>,
    object: Seq<(Seq<char>, Json)>,
    path: Seq<char>,
    below: Seq<char>,
    i: int,
)
    ensures
        0 <= i < items.len() && duplicate::first_duplicate(items[i], below) is Some
            ==> duplicate::first_duplicate(Json::Array(items), path) is Some,
        0 <= i < object.len() && duplicate::first_duplicate(object[i].1, below) is Some
            ==> duplicate::first_duplicate(Json::Object(object), path) is Some,
{
    duplicate::duplicates_are_found_at_any_depth(Json::Array(items), path);
    duplicate::duplicates_are_found_at_any_depth(Json::Object(object), path);
    if 0 <= i < items.len() {
        duplicate::duplicates_are_found_at_any_depth(items[i], below);
    }
    if 0 <= i < object.len() {
        duplicate::duplicates_are_found_at_any_depth(object[i].1, below);
    }
}

/// Whether a call shows an inspected method: its name, whether it is a
/// notification, how it relates to the revision, and the tool that it names as the
/// only param.
pub open spec fn shows_method(
    call: CallModel,
    method: MethodModel,
    tool: Option<Seq<char>>,
) -> bool {
    &&& call.method == method.method
    &&& call.is_notification == method.is_notification
    &&& call.tool == tool
    &&& call.params == match tool {
        Some(name) => Map::<Seq<char>, Seq<char>>::empty().insert("name"@, name),
        None => Map::empty(),
    }
    &&& call.mcp_classification == match method.availability {
        MethodAvailability::Available => Some(McpMethodClassification::Available),
        MethodAvailability::Extension => Some(McpMethodClassification::Extension),
        _ => None,
    }
}

/// The tool that a method of a payload names: for `tools/call` the tool of its
/// request, for any other method none.
pub open spec fn names_tool(payload: PayloadModel, method: MethodModel, tool: Option<Seq<char>>) -> bool {
    if method.method == "tools/call"@ {
        exists|name: Seq<char>, params: Option<Json>|
            {
                &&& mcp_payload::method_envelope(payload, method.batch_index) == Some(
                    EnvelopeModel::Request(name, params),
                )
                &&& #[trigger] mcp_inspection::called_tool(name, params) == Ok::<
                    Option<Seq<char>>,
                    Seq<char>,
                >(tool)
            }
    } else {
        tool is None
    }
}

proof fn lemma_calls_from(
    list: Seq<mcp_payload::InspectedCallModel>,
    strict: bool,
    revision: McpProtocolVersion,
)
    ensures
        mcp_payload::calls_from(list, strict, revision) matches Ok(calls) ==> calls.len()
            == list.len() && forall|i: int|
            0 <= i < calls.len() ==> mcp_payload::call_of(list[i], strict, revision) == Ok::<
                CallModel,
                ErrorModel,
            >(#[trigger] calls[i]),
        mcp_payload::calls_from(list, strict, revision) is Ok <==> forall|i: int|
            0 <= i < list.len() ==> mcp_payload::call_of(#[trigger] list[i], strict, revision) is Ok,
    decreases list.len(),
{
    if list.len() > 0 {
        let before = list.drop_last();
        lemma_calls_from(before, strict, revision);
        assert forall|i: int| 0 <= i < before.len() implies #[trigger] before[i] == list[i] by {}
        if let Ok(calls) = mcp_payload::calls_from(list, strict, revision) {
            let earlier = mcp_payload::calls_from(before, strict, revision)->Ok_0;
            assert forall|i: int| 0 <= i < calls.len() implies mcp_payload::call_of(
                list[i],
                strict,
                revision,
            ) == Ok::<CallModel, ErrorModel>(#[trigger] calls[i]) by {
                if i < before.len() {
                    assert(calls[i] == earlier[i]);
                    assert(before[i] == list[i]);
                }
            }
        }
        if forall|i: int|
            0 <= i < list.len() ==> mcp_payload::call_of(#[trigger] list[i], strict, revision) is Ok {
            assert forall|i: int| 0 <= i < before.len() implies mcp_payload::call_of(
                #[trigger] before[i],
                strict,
                revision,
            ) is Ok by {
                assert(before[i] == list[i]);
            }
            assert(mcp_payload::call_of(list[list.len() - 1], strict, revision) is Ok);
        }
        if mcp_payload::calls_from(list, strict, revision) is Ok {
            assert forall|i: int| 0 <= i < list.len() implies mcp_payload::call_of(
                #[trigger] list[i],
                strict,
                revision,
            ) is Ok by {
                if i < before.len() {
                    assert(before[i] == list[i]);
                }
            }
        }
    }
}

/// An accepted MCP request under a revision shows every method that the
/// inspection under that revision found, one call for each, in order, and whether
/// there is a response.
pub proof fn accepted_request_shows_every_method(
    value: Json,
    options: JsonRpcInspectionOptions,
    payload: PayloadModel,
    revision: McpProtocolVersion,
    methods: Seq<MethodModel>,
)
    requires
        options.mcp_revision == Some(revision),
        mcp_inspection::json_rpc_payload(value) == Ok::<PayloadModel, Seq<char>>(payload),
        !mcp_payload::contains_method(payload, "initialize"@),
        mcp_inspection::mcp_inspection(value, revision.date(), McpDirection::ClientToServer) == Ok::<
            Seq<MethodModel>,
            FailureModel,
        >(methods),
        mcp_payload::mcp_info(value, options).error is None,
    ensures
        ({
            let info = mcp_payload::mcp_info(value, options);
            &&& info.calls.len() == methods.len()
            &&& forall|i: int|
                0 <= i < methods.len() ==> shows_method(
                    #[trigger] info.calls[i],
                    methods[i],
                    info.calls[i].tool,
                ) && names_tool(payload, methods[i], info.calls[i].tool)
            &&& info.is_batch <==> payload is Batch
            &&& info.has_response <==> match payload {
                PayloadModel::Single(envelope) => envelope is Response,
                PayloadModel::Batch(list) => exists|i: int|
                    0 <= i < list.len() && #[trigger] list[i] is Response,
            }
            &&& info.mcp_revision == Some(revision)
        }),
{
    let list = mcp_payload::with_tools(payload, methods);
    lemma_calls_from(list, options.mcp_strict_tool_names, revision);
    let info = mcp_payload::mcp_info(value, options);
    assert forall|i: int| 0 <= i < methods.len() implies shows_method(
        #[trigger] info.calls[i],
        methods[i],
        info.calls[i].tool,
    ) && names_tool(payload, methods[i], info.calls[i].tool) by {
        assert(mcp_payload::call_of(list[i], options.mcp_strict_tool_names, revision) == Ok::<
            CallModel,
            ErrorModel,
        >(info.calls[i]));
        assert(list[i].method == methods[i]);
        assert(list[i].tool == mcp_payload::method_tool(payload, methods[i]));
        assert(mcp_payload::method_fault(methods[i], revision) is None);
        if let Some(tool) = info.calls[i].tool {
            assert(jsonrpc::tool_params(Some(tool)) =~= Map::<Seq<char>, Seq<char>>::empty().insert(
                "name"@,
                tool,
            ));
        }
        if methods[i].method == "tools/call"@ {
            if let Some(EnvelopeModel::Request(name, params)) = mcp_payload::method_envelope(
                payload,
                methods[i].batch_index,
            ) {
                assert(mcp_inspection::called_tool(name, params) == Ok::<
                    Option<Seq<char>>,
                    Seq<char>,
                >(info.calls[i].tool));
            }
        }
    }
}

/// A method that a revision does not make available rejects the request; one of
/// an extension does not.
pub proof fn unavailable_method_is_rejected(
    found: Seq<MethodModel>,
    revision: McpProtocolVersion,
)
    ensures
        mcp_payload::checked_methods(Ok(found), revision) is Ok <==> forall|i: int|
            0 <= i < found.len() ==> ((#[trigger] found[i]).availability is Available
                || found[i].availability is Extension),
        mcp_payload::checked_methods(Ok(found), revision) matches Ok(kept) ==> kept == found,
        mcp_payload::checked_methods(Ok(found), revision) matches Err(error) ==> error.kind
            == JsonRpcInspectionErrorKind::McpProfileViolation,
    decreases found.len(),
{
    if found.len() > 0 {
        let rest = found.skip(1);
        unavailable_method_is_rejected(rest, revision);
        assert forall|i: int| 0 <= i < rest.len() implies #[trigger] rest[i] == found[i + 1] by {}
        if forall|i: int|
            0 <= i < found.len() ==> ((#[trigger] found[i]).availability is Available
                || found[i].availability is Extension) {
            assert forall|i: int| 0 <= i < rest.len() implies ((
            #[trigger] rest[i]).availability is Available || rest[i].availability is Extension) by {
                assert(rest[i] == found[i + 1]);
            }
            assert(found[0].availability is Available || found[0].availability is Extension);
        }
        if mcp_payload::checked_methods(Ok(found), revision) is Ok {
            assert forall|i: int| 0 <= i < found.len() implies ((
            #[trigger] found[i]).availability is Available || found[i].availability is Extension) by {
                if i > 0 {
                    assert(rest[i - 1] == found[i]);
                }
            }
        }
    }
}

/// A failure of the inspection is a lifecycle violation where `initialize` stands
/// in a batch, an invalid message where the message itself is at fault, and
/// otherwise a violation of the profile. Its diagnostic stays.
pub proof fn inspection_failure_keeps_its_meaning(failure: FailureModel)
    ensures
        mcp_payload::failure_error(failure).detail == failure.detail,
        mcp_payload::failure_error(failure).kind
            == JsonRpcInspectionErrorKind::McpLifecycleViolation <==> failure.kind
            == McpFailureKind::InitializeInBatch,
        mcp_payload::failure_error(failure).kind == JsonRpcInspectionErrorKind::InvalidMessage
            <==> failure.kind == McpFailureKind::JsonRpc || failure.kind
            == McpFailureKind::MessageKindMismatch || failure.kind == McpFailureKind::MissingParams
            || failure.kind == McpFailureKind::InvalidParams,
        mcp_payload::failure_error(failure).kind == JsonRpcInspectionErrorKind::McpProfileViolation
            <==> failure.kind == McpFailureKind::UnsupportedProfile || failure.kind
            == McpFailureKind::BatchUnavailable || failure.kind == McpFailureKind::DirectionMismatch
            || failure.kind == McpFailureKind::Other,
{
}

/// Batches are permitted under the first revision alone, up to sixty-four
/// messages; a single message always is.
pub proof fn batches_keep_to_the_first_revision(
    list: Seq<EnvelopeModel>,
    envelope: EnvelopeModel,
    revision: McpProtocolVersion,
)
    ensures
        mcp_payload::batch_fault(PayloadModel::Batch(list), revision) is None <==> revision
            == McpProtocolVersion::V2025_03_26 && list.len() <= 64,
        mcp_payload::batch_fault(PayloadModel::Single(envelope), revision) is None,
        mcp_payload::batch_fault(PayloadModel::Batch(list), revision) matches Some(error)
            ==> error.kind == JsonRpcInspectionErrorKind::McpProfileViolation,
{
}

/// An `initialize` message is accepted where it stands alone as a request with
/// params that decode, and then shows itself as the only call.
pub proof fn initialize_is_accepted_alone(payload: PayloadModel, fault: Option<Seq<char>>)
    ensures
        ({
            let info = mcp_payload::initialize_info(payload, fault);
            &&& info.error is None <==> fault is None && (payload matches PayloadModel::Single(
                EnvelopeModel::Request(_, params),
            ) && params is Some)
            &&& info.is_batch <==> payload is Batch
            &&& info.error is None ==> {
                &&& info.calls.len() == 1
                &&& info.calls[0].method == "initialize"@
                &&& !info.calls[0].is_notification
                &&& info.calls[0].tool is None
                &&& info.calls[0].params == Map::<Seq<char>, Seq<char>>::empty()
                &&& !info.has_response
                &&& info.mcp_revision is None
            }
            &&& payload is Batch ==> (info.error matches Some(error) && error.kind
                == JsonRpcInspectionErrorKind::McpLifecycleViolation)
        }),
{
}

/// A strict tool name has one to 128 characters, each a letter or a digit of
/// ASCII, a low line, a hyphen or a full stop.
pub proof fn strict_tool_name_characters(name: Seq<char>, c: char)
    ensures
        mcp_payload::is_strict_tool_name(seq![c]) <==> ('a' <= c && c <= 'z') || ('A' <= c && c
            <= 'Z') || ('0' <= c && c <= '9') || c == '_' || c == '-' || c == '.',
        mcp_payload::is_strict_tool_name(name) <==> 0 < name.len() < 129 && forall|i: int|
            0 <= i < name.len() ==> mcp_payload::is_strict_tool_name(seq![#[trigger] name[i]]),
{
    assert(seq![c][0] == c);
    assert forall|i: int| 0 <= i < name.len() implies (mcp_payload::is_strict_tool_name(
        seq![#[trigger] name[i]],
    ) <==> mcp_payload::is_tool_char(name[i])) by {
        assert(seq![name[i]][0] == name[i]);
    }
    if mcp_payload::is_strict_tool_name(name) {
        assert forall|i: int| 0 <= i < name.len() implies mcp_payload::is_strict_tool_name(
            seq![#[trigger] name[i]],
        ) by {
            assert(mcp_payload::is_tool_char(name[i]));
        }
    }
    if 0 < name.len() < 129 && forall|i: int|
        0 <= i < name.len() ==> mcp_payload::is_strict_tool_name(seq![#[trigger] name[i]]) {
        assert forall|i: int| 0 <= i < name.len() implies mcp_payload::is_tool_char(
            #[trigger] name[i],
        ) by {
            assert(mcp_payload::is_strict_tool_name(seq![name[i]]));
        }
    }
}

/// The revision header gives its value, trimmed of blanks and tabs; any other
/// header gives none.
pub proof fn revision_header_gives_its_value(name: Seq<char>, value: Seq<char>)
    requires
        forall|i: int| 0 <= i < name.len() ==> #[trigger] name[i] != ':',
    ensures
        mcp::version_value(name + seq![':'] + value) == if text::lowered(name)
            == "mcp-protocol-version"@ {
            Some(text::trim(value, CharClass::Horizontal))
        } else {
            None::<Seq<char>>
        },
{
    text_laws::text_is_parted_at_its_separator(name, ':', value);
    reveal_strlit("mcp-protocol-version");
    let word = "mcp-protocol-version"@;
    assert forall|i: int| 0 <= i < word.len() implies #[trigger] text::lowered(word)[i] == word[i] by {
        assert(word[i] == '-' || ('a' <= word[i] && word[i] <= 'z'));
    }
    assert(text::lowered(word) =~= word);
}

/// The values of revision headers are read from all lines, in order.
pub proof fn revision_headers_are_read_in_order(
    a: Seq<Seq<char>>,
    b: Seq<Seq<char>>,
    line: Seq<char>,
)
    ensures
        mcp::version_values(a + b) == mcp::version_values(a) + mcp::version_values(b),
        mcp::version_values(seq![line]) == match mcp::version_value(line) {
            Some(value) => seq![value],
            None => Seq::<Seq<char>>::empty(),
        },
    decreases b.len(),
{
    assert(mcp::version_values(Seq::<Seq<char>>::empty()) == Seq::<Seq<char>>::empty());
    assert(seq![line].drop_last() == Seq::<Seq<char>>::empty());
    if b.len() > 0 {
        revision_headers_are_read_in_order(a, b.drop_last(), line);
        assert((a + b).drop_last() == a + b.drop_last());
        assert((a + b).last() == b.last());
    } else {
        assert(a + b == a);
    }
}

/// A request head with one revision header that is not empty names its value;
/// without one it names none; with several, or an empty one, it is refused.
pub proof fn revision_header_must_stand_once(
    raw: Seq<u8>,
    end: int,
    request_line: Seq<char>,
    fields: Seq<Seq<char>>,
)
    requires
        bytes::head_end(raw) == Some(end),
        vstd::utf8::valid_utf8(raw.take(end)),
        vstd::utf8::decode_utf8(raw.take(end)) == text_laws::ended(
            seq![request_line] + fields + seq![Seq::<char>::empty()],
        ),
        text_laws::is_one_line(request_line),
        forall|i: int| 0 <= i < fields.len() ==> text_laws::is_one_line(#[trigger] fields[i]),
    ensures
        ({
            let values = mcp::version_values(fields);
            mcp::version_header(raw) == if values.len() == 0 {
                Ok::<Option<Seq<char>>, McpProtocolVersionError>(None)
            } else if values.len() == 1 && values[0].len() > 0 {
                Ok(Some(values[0]))
            } else {
                Err(McpProtocolVersionError::InvalidHeader)
            }
        }),
{
    let blank = Seq::<char>::empty();
    let all = seq![request_line] + fields + seq![blank];
    assert forall|i: int| 0 <= i < all.len() implies text_laws::is_one_line(#[trigger] all[i]) by {
        if 1 <= i < 1 + fields.len() {
            assert(all[i] == fields[i - 1]);
        }
    }
    text_laws::ended_lines_are_split(all);
    let rest = all.push(blank).skip(1);
    assert(rest == fields + seq![blank] + seq![blank]);
    text_laws::parts_make_up_the_text(blank, ':');
    assert(mcp::version_value(blank) is None) by {
        if let Some((x, y)) = text::split_once(blank, ':') {
            assert((x + seq![':'] + y).len() > 0);
        }
    }
    revision_headers_are_read_in_order(fields, seq![blank], blank);
    revision_headers_are_read_in_order(fields + seq![blank], seq![blank], blank);
    assert(mcp::version_values(fields) + Seq::<Seq<char>>::empty() == mcp::version_values(fields));
}

/// A request selects the revision that its header names, or the first one without
/// a header, if the endpoint allows it. A value that names no supported revision
/// is refused, and so is a revision that is not allowed. Only an `initialize`
/// request that stands alone needs none.
pub proof fn request_selects_an_allowed_revision(
    raw: Seq<u8>,
    info: InfoModel,
    allowed: Seq<McpProtocolVersion>,
)
    ensures
        ({
            let selected = mcp::request_version(raw, info, allowed);
            if !info.is_batch && !info.has_response && info.error is None && info.calls.len() == 1
                && info.calls[0].method == "initialize"@ && !info.calls[0].is_notification {
                selected == Ok::<McpRequestProtocolVersion, McpProtocolVersionError>(
                    McpRequestProtocolVersion::Initialization,
                )
            } else {
                match mcp::version_header(raw) {
                    Err(error) => selected == Err::<
                        McpRequestProtocolVersion,
                        McpProtocolVersionError,
                    >(error),
                    Ok(None) => selected == if allowed.contains(McpProtocolVersion::V2025_03_26) {
                        Ok::<McpRequestProtocolVersion, McpProtocolVersionError>(
                            McpRequestProtocolVersion::Selected(McpProtocolVersion::V2025_03_26),
                        )
                    } else {
                        Err(McpProtocolVersionError::NotAllowed(McpProtocolVersion::V2025_03_26))
                    },
                    Ok(Some(value)) => forall|version: McpProtocolVersion|
                        {
                            &&& selected == Ok::<
                                McpRequestProtocolVersion,
                                McpProtocolVersionError,
                            >(McpRequestProtocolVersion::Selected(version)) <==> value
                                == #[trigger] version.date() && allowed.contains(version)
                            &&& selected == Err::<
                                McpRequestProtocolVersion,
                                McpProtocolVersionError,
                            >(McpProtocolVersionError::NotAllowed(version)) <==> value
                                == version.date() && !allowed.contains(version)
                        },
                }
            }
        }),
        mcp::request_version(raw, info, allowed) == Err::<
            McpRequestProtocolVersion,
            McpProtocolVersionError,
        >(McpProtocolVersionError::UnsupportedHeaderValue) ==> (mcp::version_header(
            raw,
        ) matches Ok(Some(value)) && forall|version: McpProtocolVersion|
            value != #[trigger] version.date()),
{
    reveal_strlit("2025-03-26");
    reveal_strlit("2025-06-18");
    reveal_strlit("2025-11-25");
    assert("2025-03-26"@[6] != "2025-06-18"@[6]);
    assert("2025-03-26"@[6] != "2025-11-25"@[6]);
    assert("2025-06-18"@[6] != "2025-11-25"@[6]);
    let selected = mcp::request_version(raw, info, allowed);
    if !mcp::standalone_initialize(info) {
        if let Ok(Some(value)) = mcp::version_header(raw) {
            assert forall|version: McpProtocolVersion|
                (McpProtocolVersion::dated(value) == Some(version)) == (value
                    == #[trigger] version.date()) by {
                match version {
                    McpProtocolVersion::V2025_03_26 => {},
                    McpProtocolVersion::V2025_06_18 => {},
                    McpProtocolVersion::V2025_11_25 => {},
                }
            }
        }
    }
}

/// The supported revisions are named by their dates.
pub proof fn revisions_are_named_by_their_dates(revision: McpProtocolVersion)
    ensures
        revision.date() == match revision {
            McpProtocolVersion::V2025_03_26 => "2025-03-26"@,
            McpProtocolVersion::V2025_06_18 => "2025-06-18"@,
            McpProtocolVersion::V2025_11_25 => "2025-11-25"@,
        },
        revision.permits_batches() <==> revision == McpProtocolVersion::V2025_03_26,
{
}

/// A protocol is read from its name in any case, and from no other text.
pub proof fn protocol_reads_its_name(protocol: L7Protocol, name: Seq<char>)
    ensures
        text::lowered(name) == protocol.name() ==> L7Protocol::named(name) == Some(protocol),
        L7Protocol::named(name) matches Some(found) ==> text::lowered(name) == found.name(),
{
    reveal_strlit("rest");
    reveal_strlit("websocket");
    reveal_strlit("graphql");
    reveal_strlit("sql");
    reveal_strlit("json-rpc");
    reveal_strlit("mcp");
    assert forall|p: L7Protocol| text::lowered(#[trigger] p.name()) == p.name() by {
        let word = p.name();
        assert forall|i: int| 0 <= i < word.len() implies #[trigger] text::lowered(word)[i]
            == word[i] by {
            match p {
                L7Protocol::Rest => {
                    assert('a' <= word[i] && word[i] <= 'z');
                },
                L7Protocol::Websocket => {
                    assert('a' <= word[i] && word[i] <= 'z');
                },
                L7Protocol::Graphql => {
                    assert('a' <= word[i] && word[i] <= 'z');
                },
                L7Protocol::Sql => {
                    assert('a' <= word[i] && word[i] <= 'z');
                },
                L7Protocol::JsonRpc => {
                    assert(word[i] == '-' || ('a' <= word[i] && word[i] <= 'z'));
                },
                L7Protocol::Mcp => {
                    assert('a' <= word[i] && word[i] <= 'z');
                },
            }
        }
        assert(text::lowered(word) =~= word);
    }
    assert(L7Protocol::Rest.name() == "rest"@);
    assert(L7Protocol::Websocket.name() == "websocket"@);
    assert(L7Protocol::Graphql.name() == "graphql"@);
    assert(L7Protocol::Sql.name() == "sql"@);
    assert(L7Protocol::JsonRpc.name() == "json-rpc"@);
    assert(L7Protocol::Mcp.name() == "mcp"@);
    assert("sql"@[0] != "mcp"@[0]);
}

/// The options of a mode alone have that mode, hold tool names to the strict form,
/// and are bound to no revision.
pub proof fn mode_alone_is_strict(mode: jsonrpc::JsonRpcInspectionMode)
    ensures
        ({
            let options = jsonrpc::mode_options(mode);
            &&& options.mode == mode
            &&& options.mcp_strict_tool_names
            &&& options.mcp_revision is None
        }),
{
}

/// Whether no value of a list holds a duplicate key.
pub open spec fn are_unique(items: Seq<Json>) -> bool {
    forall|k: int, path: Seq<char>|
        0 <= k < items.len() ==> #[trigger] duplicate::first_duplicate(items[k], path) is None
}

proof fn lemma_first_item(items: Seq<Json>, path: Seq<char>, from: int, i: int)
    requires
        0 <= from <= i < items.len(),
        are_unique(items.take(i)),
        duplicate::first_duplicate(items[i], duplicate::item_path(path, i)) is Some,
    ensures
        duplicate::first_in_items(items, from, path) == duplicate::first_duplicate(
            items[i],
            duplicate::item_path(path, i),
        ),
    decreases i - from,
{
    if from < i {
        assert(items.take(i)[from] == items[from]);
        assert(duplicate::first_duplicate(
            items.take(i)[from],
            duplicate::item_path(path, from),
        ) is None);
        lemma_first_item(items, path, from + 1, i);
    }
}

/// The first duplicate key in a list is told with the place of the item that holds
/// it: its number in brackets behind the place of the list.
pub proof fn duplicate_in_a_list_is_told_with_its_item(
    items: Seq<Json>,
    path: Seq<char>,
    i: int,
)
    requires
        0 <= i < items.len(),
        are_unique(items.take(i)),
    ensures
        ({
            let place = path + "["@ + numeral::numeral(i as nat, Base::Decimal) + "]"@;
            duplicate::first_duplicate(items[i], place) is Some ==> duplicate::first_duplicate(
                Json::Array(items),
                path,
            ) == duplicate::first_duplicate(items[i], place)
        }),
{
    if duplicate::first_duplicate(items[i], duplicate::item_path(path, i)) is Some {
        lemma_first_item(items, path, 0, i);
    }
}

/// Whether no two entries of an object have one key, and no value in it holds a
/// duplicate key.
pub open spec fn is_unique_object(object: Seq<(Seq<char>, Json)>) -> bool {
    &&& crate::json::distinct_keys(object)
    &&& forall|k: int, path: Seq<char>|
        0 <= k < object.len() ==> #[trigger] duplicate::first_duplicate(object[k].1, path) is None
}

proof fn lemma_first_entry(object: Seq<(Seq<char>, Json)>, path: Seq<char>, from: int, i: int)
    requires
        0 <= from <= i < object.len(),
        is_unique_object(object.take(i)),
    ensures
        duplicate::first_in_object(object, from, path) == duplicate::first_in_object(
            object,
            i,
            path,
        ),
    decreases i - from,
{
    if from < i {
        let front = object.take(i);
        assert(front[from] == object[from]);
        assert(duplicate::first_duplicate(
            front[from].1,
            duplicate::member_path(path, object[from].0),
        ) is None);
        if duplicate::repeats(object, from) {
            let k = choose|k: int| 0 <= k < from && (#[trigger] object[k]).0 == object[from].0;
            assert(front[k] == object[k]);
            assert(front[k].0 != front[from].0);
        }
        lemma_first_entry(object, path, from + 1, i);
    }
}

/// The first duplicate key in an object is told with the key and the place of the
/// object, and one in the value of an entry with the place of that value: its key
/// behind a full stop.
pub proof fn duplicate_in_an_object_is_told_with_its_place(
    object: Seq<(Seq<char>, Json)>,
    path: Seq<char>,
    i: int,
    k: int,
)
    requires
        0 <= i < object.len(),
        is_unique_object(object.take(i)),
    ensures
        0 <= k < i && object[k].0 == object[i].0 ==> (duplicate::first_duplicate(
            Json::Object(object),
            path,
        ) matches Some(told) && told.key == object[i].0 && told.object_path == path),
        crate::json::distinct_keys(object) ==> ({
            let place = path + "."@ + object[i].0;
            duplicate::first_duplicate(object[i].1, place) is Some ==> duplicate::first_duplicate(
                Json::Object(object),
                path,
            ) == duplicate::first_duplicate(object[i].1, place)
        }),
{
    lemma_first_entry(object, path, 0, i);
    if 0 <= k < i && object[k].0 == object[i].0 {
        assert(duplicate::repeats(object, i));
    }
    if crate::json::distinct_keys(object) && duplicate::repeats(object, i) {
        let j = choose|j: int| 0 <= j < i && (#[trigger] object[j]).0 == object[i].0;
        assert(object[j].0 != object[i].0);
    }
}

/// A batch contains what its messages contain: a method that a request or a
/// notification in it asks for, and a response where one stands in it.
pub proof fn batch_contains_what_its_messages_do(
    a: Seq<EnvelopeModel>,
    b: Seq<EnvelopeModel>,
    one: EnvelopeModel,
    method: Seq<char>,
    other: Seq<char>,
    params: Option<Json>,
)
    ensures
        mcp_payload::contains_method(PayloadModel::Batch(a + b), method)
            <==> mcp_payload::contains_method(PayloadModel::Batch(a), method)
            || mcp_payload::contains_method(PayloadModel::Batch(b), method),
        mcp_payload::contains_response(PayloadModel::Batch(a + b))
            <==> mcp_payload::contains_response(PayloadModel::Batch(a))
            || mcp_payload::contains_response(PayloadModel::Batch(b)),
        mcp_payload::contains_method(PayloadModel::Batch(alone(one)), method)
            <==> mcp_payload::contains_method(PayloadModel::Single(one), method),
        mcp_payload::contains_response(PayloadModel::Batch(alone(one)))
            <==> mcp_payload::contains_response(PayloadModel::Single(one)),
        mcp_payload::contains_method(
            PayloadModel::Single(EnvelopeModel::Notification(other)),
            method,
        ) <==> method == other,
        mcp_payload::contains_method(
            PayloadModel::Single(EnvelopeModel::Request(other, params)),
            method,
        ) <==> method == other,
        mcp_payload::contains_response(PayloadModel::Single(one)) <==> one is Response,
        one is Response ==> !mcp_payload::contains_method(PayloadModel::Single(one), method),
{
    let all = a + b;
    assert forall|i: int| 0 <= i < a.len() implies #[trigger] a[i] == all[i] by {}
    assert forall|i: int| 0 <= i < b.len() implies #[trigger] b[i] == all[i + a.len()] by {}
    assert forall|i: int| 0 <= i < all.len() implies (#[trigger] all[i]) == if i < a.len() {
        a[i]
    } else {
        b[i - a.len()]
    } by {}
    assert(alone(one)[0] == one);
}

/// A message alone in a batch.
pub open spec fn alone(one: EnvelopeModel) -> Seq<EnvelopeModel> {
    seq![one]
}

} // verus!
