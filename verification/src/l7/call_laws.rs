//! What policy is shown of every inspected JSON-RPC request.

use crate::bytes;
use crate::json::Json;
use crate::l7::duplicate;
use crate::l7::jsonrpc;
use crate::l7::jsonrpc::{
    BufferedBodyError, CallModel, JsonRpcInspectionErrorKind, JsonRpcInspectionMode,
    JsonRpcInspectionOptions, MessageModel,
};
use crate::l7::provider::{BodyLength, L7Request};
use crate::text;
use crate::text::CharClass;
use crate::text_laws;
use vstd::prelude::*;

verus! {

/// Whether a value asks for a method: it is a JSON-RPC 2.0 message with a method
/// and without a result or an error.
pub open spec fn is_call(value: Json) -> bool {
    &&& value.field("jsonrpc"@) == Some(Json::Text("2.0"@))
    &&& value.field("method"@) matches Some(Json::Text(_))
    &&& value.field("result"@) is None
    &&& value.field("error"@) is None
}

/// Whether a value answers a call: it is a JSON-RPC 2.0 message without a
/// method, with an id that is a string, a number or null, and with either a
/// result or an error object.
pub open spec fn is_response(value: Json) -> bool {
    &&& value.field("jsonrpc"@) == Some(Json::Text("2.0"@))
    &&& value.field("method"@) is None
    &&& value.field("result"@) is Some <==> value.field("error"@) is None
    &&& value.field("error"@) matches Some(error) ==> error is Object
    &&& value.field("id"@) matches Some(id) && (id is Text || id is Number || id is Null)
}

/// Whether a call is the one that a value asks for: its method, and whether it
/// carries no id. Nothing else is shown.
pub open spec fn shows_call(call: CallModel, value: Json) -> bool {
    &&& value.field("method"@) == Some(Json::Text(call.method))
    &&& call.is_notification <==> value.field("id"@) is None
    &&& call.params == Map::<Seq<char>, Seq<char>>::empty()
    &&& call.tool is None
    &&& call.mcp_classification is None
}

proof fn lemma_message(value: Json)
    ensures
        match jsonrpc::message(value) {
            Ok(MessageModel::Call(call)) => is_call(value) && shows_call(call, value),
            Ok(MessageModel::Response) => is_response(value) && !is_call(value),
            Err(_) => !is_call(value) && !is_response(value),
        },
{
}

/// A single generic message is accepted if it is a call or a response, and
/// rejected otherwise. Of a call policy is shown the method, whether it has an
/// id or not.
pub proof fn single_message_is_shown(value: Json, options: JsonRpcInspectionOptions)
    requires
        options.mode == JsonRpcInspectionMode::JsonRpc,
        !(value is Array),
        jsonrpc::unique_value(Some(value)) is Ok,
    ensures
        ({
            let info = jsonrpc::request_info(Some(value), options);
            &&& !info.is_batch
            &&& info.error is None <==> is_call(value) || is_response(value)
            &&& info.error matches Some(error) ==> error.kind
                == JsonRpcInspectionErrorKind::InvalidMessage
            &&& is_call(value) ==> info.calls.len() == 1 && shows_call(info.calls[0], value)
            &&& !is_call(value) ==> info.calls.len() == 0
            &&& info.has_response <==> is_response(value)
        }),
{
    lemma_message(value);
}

/// Whether an item of a batch has a method.
pub open spec fn has_method(value: Json) -> bool {
    value.field("method"@) is Some
}

proof fn lemma_calls(items: Seq<Json>)
    requires
        forall|i: int| 0 <= i < items.len() ==> jsonrpc::message(#[trigger] items[i]) is Ok,
    ensures
        ({
            let asking = items.filter(|value: Json| has_method(value));
            let calls = jsonrpc::calls_in(items);
            calls.len() == asking.len() && forall|i: int|
                0 <= i < calls.len() ==> shows_call(#[trigger] calls[i], asking[i])
        }),
    decreases items.len(),
{
    let f = |value: Json| has_method(value);
    reveal(Seq::filter);
    if items.len() > 0 {
        let before = items.drop_last();
        assert forall|i: int| 0 <= i < before.len() implies jsonrpc::message(
            #[trigger] before[i],
        ) is Ok by {
            assert(before[i] == items[i]);
        }
        lemma_calls(before);
        lemma_message(items.last());
        assert(jsonrpc::message(items[items.len() - 1]) is Ok);
        let asking = items.filter(f);
        let calls = jsonrpc::calls_in(items);
        let earlier = jsonrpc::calls_in(before);
        assert forall|i: int| 0 <= i < calls.len() implies shows_call(
            #[trigger] calls[i],
            asking[i],
        ) by {
            if i < earlier.len() {
                assert(calls[i] == earlier[i]);
                assert(asking[i] == before.filter(f)[i]);
            }
        }
    }
}

proof fn lemma_first_invalid(items: Seq<Json>)
    ensures
        0 <= jsonrpc::first_invalid(items) <= items.len(),
        jsonrpc::first_invalid(items) < items.len() <==> exists|i: int|
            0 <= i < items.len() && jsonrpc::message(#[trigger] items[i]) is Err,
    decreases items.len(),
{
    if items.len() > 0 {
        let rest = items.skip(1);
        lemma_first_invalid(rest);
        if jsonrpc::message(items[0]) is Err {
        } else {
            if jsonrpc::first_invalid(rest) < rest.len() {
                let i = choose|i: int|
                    0 <= i < rest.len() && jsonrpc::message(#[trigger] rest[i]) is Err;
                assert(items[i + 1] == rest[i]);
            } else {
                assert forall|i: int| 0 <= i < items.len() implies !(jsonrpc::message(
                    #[trigger] items[i],
                ) is Err) by {
                    if i > 0 {
                        assert(rest[i - 1] == items[i]);
                    }
                }
            }
        }
    }
}

/// A generic batch is accepted if it is not empty and each of its items is a
/// call or a response.
pub proof fn batch_is_accepted_whole_or_not(
    items: Seq<Json>,
    options: JsonRpcInspectionOptions,
)
    requires
        options.mode == JsonRpcInspectionMode::JsonRpc,
        jsonrpc::unique_value(Some(Json::Array(items))) is Ok,
    ensures
        ({
            let info = jsonrpc::request_info(Some(Json::Array(items)), options);
            &&& info.is_batch
            &&& info.error is None <==> items.len() > 0 && forall|i: int|
                0 <= i < items.len() ==> is_call(#[trigger] items[i]) || is_response(items[i])
            &&& info.error matches Some(error) ==> error.kind
                == JsonRpcInspectionErrorKind::InvalidMessage
        }),
{
    lemma_first_invalid(items);
    assert forall|i: int| 0 <= i < items.len() implies (jsonrpc::message(#[trigger] items[i]) is Ok
        <==> is_call(items[i]) || is_response(items[i])) by {
        lemma_message(items[i]);
    }
    if jsonrpc::first_invalid(items) < items.len() {
        let i = choose|i: int| 0 <= i < items.len() && jsonrpc::message(#[trigger] items[i]) is Err;
        assert(!(is_call(items[i]) || is_response(items[i])));
    } else if items.len() > 0 {
        assert forall|i: int| 0 <= i < items.len() implies is_call(#[trigger] items[i])
            || is_response(items[i]) by {
            assert(!(jsonrpc::message(items[i]) is Err));
        }
    }
}

/// In an accepted generic batch every item that has a method contributes exactly
/// one call, in order: there are as many calls as items with a method, and each
/// call shows the method of the item at its position among them, with an id or
/// without. There is a response where an item has a result or an error.
pub proof fn accepted_batch_shows_every_call(
    items: Seq<Json>,
    options: JsonRpcInspectionOptions,
)
    requires
        options.mode == JsonRpcInspectionMode::JsonRpc,
        jsonrpc::request_info(Some(Json::Array(items)), options).error is None,
    ensures
        ({
            let info = jsonrpc::request_info(Some(Json::Array(items)), options);
            let asking = items.filter(|value: Json| has_method(value));
            &&& info.calls.len() == asking.len()
            &&& forall|i: int|
                0 <= i < asking.len() ==> shows_call(#[trigger] info.calls[i], asking[i])
            &&& info.has_response <==> exists|i: int|
                0 <= i < items.len() && ((#[trigger] items[i]).field("result"@) is Some
                    || items[i].field("error"@) is Some)
        }),
{
    lemma_first_invalid(items);
    assert forall|i: int| 0 <= i < items.len() implies jsonrpc::message(#[trigger] items[i]) is Ok by {
        assert(!(jsonrpc::message(items[i]) is Err));
    }
    lemma_calls(items);
    if jsonrpc::response_in(items) {
        let i = choose|i: int|
            0 <= i < items.len() && jsonrpc::message(#[trigger] items[i]) == Ok::<
                MessageModel,
                Seq<char>,
            >(MessageModel::Response);
        lemma_message(items[i]);
        assert(items[i].field("result"@) is Some || items[i].field("error"@) is Some);
    }
    if exists|i: int|
        0 <= i < items.len() && ((#[trigger] items[i]).field("result"@) is Some
            || items[i].field("error"@) is Some) {
        let i = choose|i: int|
            0 <= i < items.len() && ((#[trigger] items[i]).field("result"@) is Some
                || items[i].field("error"@) is Some);
        lemma_message(items[i]);
        assert(jsonrpc::message(items[i]) is Ok);
        assert(jsonrpc::message(items[i]) == Ok::<MessageModel, Seq<char>>(MessageModel::Response));
    }
}

/// A body that is no JSON, or that holds a duplicate key, is rejected as such,
/// and what it says of calls is not looked at.
pub proof fn unusable_body_is_rejected(decoded: Option<Json>, options: JsonRpcInspectionOptions)
    requires
        decoded matches Some(value) ==> duplicate::first_duplicate(value, "$"@) is Some,
    ensures
        ({
            let info = jsonrpc::request_info(decoded, options);
            &&& info.error matches Some(error) && error.kind
                == JsonRpcInspectionErrorKind::InvalidJson
            &&& info.calls.len() == 0
            &&& !info.has_response
            &&& !info.is_batch
        }),
{
}

/// A head without its blank line, the blank line, and a body.
pub open spec fn behind_blank_line(head: Seq<u8>, body: Seq<u8>) -> Seq<u8> {
    head + seq![13u8, 10u8, 13u8, 10u8] + body
}

/// The body of a buffered request is what follows its first blank line, as long
/// as its framing says. A request without a blank line, with bytes that no
/// framing covers, of another length, or with chunks left in it has none.
pub proof fn buffered_body_follows_the_head(raw: Seq<u8>, framing: BodyLength)
    ensures
        match jsonrpc::buffered_body(raw, framing) {
            Ok(body) => {
                &&& exists|head: Seq<u8>| #[trigger] behind_blank_line(head, body) == raw
                &&& match framing {
                    BodyLength::Absent => body.len() == 0,
                    BodyLength::ContentLength(length) => body.len() == length,
                    BodyLength::Chunked => false,
                }
            },
            Err(BufferedBodyError::ChunkedFraming) => framing == BodyLength::Chunked,
            Err(BufferedBodyError::UnframedBytes) => framing == BodyLength::Absent,
            Err(BufferedBodyError::LengthMismatch) => framing is ContentLength,
            Err(BufferedBodyError::MissingTerminator) => forall|head: Seq<u8>, body: Seq<u8>|
                #[trigger] behind_blank_line(head, body) != raw,
        },
{
    let blank = seq![13u8, 10u8, 13u8, 10u8];
    bytes::lemma_first_match(raw, bytes::blank_line(), 0);
    match bytes::first_match(raw, bytes::blank_line(), 0) {
        Some(at) => {
            let head = raw.take(at);
            let body = raw.skip(at + 4);
            assert(raw.subrange(at, at + 4) == blank);
            assert(behind_blank_line(head, body) =~= raw) by {
                assert forall|i: int| 0 <= i < raw.len() implies behind_blank_line(
                    head,
                    body,
                )[i] == raw[i] by {
                    if at <= i < at + 4 {
                        assert(raw.subrange(at, at + 4)[i - at] == raw[i]);
                    }
                }
            }
            assert(bytes::head_end(raw) == Some(at + 4));
            assert(behind_blank_line(head, body) == raw);
            if let Ok(found) = jsonrpc::buffered_body(raw, framing) {
                assert(found == body);
            }
        },
        None => {
            assert(bytes::head_end(raw) is None);
            assert forall|head: Seq<u8>, body: Seq<u8>| #[trigger] behind_blank_line(head, body) != raw by {
                if behind_blank_line(head, body) == raw {
                    let at = head.len() as int;
                    assert(raw.subrange(at, at + 4) =~= blank);
                    assert(bytes::matches_at(raw, bytes::blank_line(), at));
                }
            }
        },
    }
}

/// No body stands behind a blank line in the head: the head that precedes a
/// buffered body holds no earlier blank line.
pub proof fn head_ends_at_the_first_blank_line(head: Seq<u8>, body: Seq<u8>, framing: BodyLength)
    requires
        head.len() >= 4,
        head.subrange(head.len() - 4, head.len() as int) == seq![13u8, 10u8, 13u8, 10u8],
        forall|i: int|
            0 <= i < head.len() - 4 ==> #[trigger] head.subrange(i, i + 4) != seq![
                13u8,
                10u8,
                13u8,
                10u8,
            ],
        match framing {
            BodyLength::Absent => body.len() == 0,
            BodyLength::ContentLength(length) => body.len() == length,
            BodyLength::Chunked => false,
        },
    ensures
        jsonrpc::buffered_body(head + body, framing) == Ok::<Seq<u8>, BufferedBodyError>(body),
{
    let raw = head + body;
    let last = head.len() - 4;
    bytes::lemma_first_match(raw, bytes::blank_line(), 0);
    assert(raw.subrange(last, last + 4) =~= head.subrange(last, last + 4));
    assert(bytes::matches_at(raw, bytes::blank_line(), last));
    if let Some(at) = bytes::first_match(raw, bytes::blank_line(), 0) {
        if at < last {
            assert(raw.subrange(at, at + 4) =~= head.subrange(at, at + 4));
        }
        if last < at {
            assert(!bytes::matches_at(raw, bytes::blank_line(), last));
        }
        assert(raw.skip(at + 4) =~= body);
    }
}

/// Only a GET, in any case, without a body, that accepts event streams is taken
/// as a receive stream; and each such request is.
pub proof fn receive_stream_is_a_bodiless_get(request: L7Request)
    ensures
        jsonrpc::is_receive_stream(request) <==> {
            &&& text::lowered(request.action@) == text::lowered("GET"@)
            &&& !(request.body_length is Chunked)
            &&& request.body_length matches BodyLength::ContentLength(length) ==> length == 0
            &&& jsonrpc::accepts_sse(request.raw_header@)
        },
{
}

proof fn lemma_trim_padding(word: Seq<char>)
    requires
        word.len() > 0,
        !text::is_white_space(word[0]),
        !text::is_white_space(word.last()),
    ensures
        text::trim(seq![' '] + word, CharClass::WhiteSpace) == word,
        text::trim(word, CharClass::WhiteSpace) == word,
{
    let padded = seq![' '] + word;
    assert(padded.skip(1) =~= word);
    assert(padded[0] == ' ');
    assert(text::trim_start(padded, CharClass::WhiteSpace) == word) by {
        assert(text::trim_start(padded.skip(1), CharClass::WhiteSpace) == word);
    }
}

proof fn lemma_plain(s: Seq<char>, i: int)
    requires
        0 <= i < s.len(),
        ('a' <= text::lowered(s)[i] && text::lowered(s)[i] <= 'z') || text::lowered(s)[i] == '/'
            || text::lowered(s)[i] == '-',
    ensures
        !text::is_white_space(s[i]),
        s[i] != ';',
        s[i] != ',',
        s[i] != ':',
{
    text_laws::lower_case_changes_letters_alone(s, s, i);
}

proof fn lemma_media_type(media: Seq<char>, parameters: Seq<char>)
    requires
        text::lowered(media) == "text/event-stream"@,
        parameters.len() == 0 || parameters[0] == ';',
    ensures
        jsonrpc::names_event_stream(seq![' '] + media + parameters),
{
    reveal_strlit("text/event-stream");
    let word = "text/event-stream"@;
    let padded = seq![' '] + media;
    assert(text::lowered(word) =~= word) by {
        assert forall|i: int| 0 <= i < word.len() implies #[trigger] text::lowered(word)[i]
            == word[i] by {
            assert(!('A' <= word[i] && word[i] <= 'Z'));
        }
    }
    assert forall|i: int| 0 <= i < media.len() implies !text::is_white_space(#[trigger] media[i])
        && media[i] != ';' && media[i] != ',' by {
        assert(text::lowered(media)[i] == word[i]);
        assert(('a' <= word[i] && word[i] <= 'z') || word[i] == '/' || word[i] == '-');
        lemma_plain(media, i);
    }
    assert forall|i: int| 0 <= i < padded.len() implies #[trigger] padded[i] != ';' by {
        if i > 0 {
            assert(padded[i] == media[i - 1]);
        }
    }
    if parameters.len() > 0 {
        assert(parameters =~= seq![';'] + parameters.skip(1));
        assert(padded + parameters =~= padded + seq![';'] + parameters.skip(1));
        text_laws::text_is_parted_at_its_separator(padded, ';', parameters.skip(1));
    } else {
        assert(padded + parameters =~= padded);
        text_laws::text_is_parted_at_its_separator(padded, ';', Seq::empty());
    }
    assert(media.len() == text::lowered(media).len());
    lemma_trim_padding(media);
}

proof fn lemma_accepts(line: Seq<char>, name: Seq<char>, value: Seq<char>, i: int)
    requires
        text::split_once(line, ':') == Some((name, value)),
        text::lowered(text::trim(name, CharClass::WhiteSpace)) == text::lowered("accept"@),
        0 <= i < text::split(value, ',').len(),
        jsonrpc::names_event_stream(text::split(value, ',')[i]),
    ensures
        jsonrpc::line_accepts_sse(line),
{
    assert(exists|k: int|
        0 <= k < text::split(value, ',').len() && jsonrpc::names_event_stream(
            #[trigger] text::split(value, ',')[k],
        ));
    match text::split_once(line, ':') {
        Some((first, rest)) => {
            assert(first == name && rest == value);
        },
        None => {},
    }
}

/// A field `Accept` whose list names `text/event-stream`, wherever it stands there,
/// in any case and with any parameters, accepts event streams.
pub proof fn accept_field_accepts_event_streams(
    name: Seq<char>,
    front: Seq<char>,
    media: Seq<char>,
    parameters: Seq<char>,
    back: Seq<char>,
)
    requires
        text::lowered(name) == "accept"@,
        text::lowered(media) == "text/event-stream"@,
        parameters.len() == 0 || parameters[0] == ';',
        forall|i: int| 0 <= i < parameters.len() ==> #[trigger] parameters[i] != ',',
    ensures
        ({
            let item = seq![' '] + media + parameters;
            &&& jsonrpc::line_accepts_sse(name + seq![':'] + item)
            &&& jsonrpc::line_accepts_sse(
                name + seq![':'] + (front + seq![','] + item + seq![','] + back),
            )
        }),
{
    let item = seq![' '] + media + parameters;
    let listed = front + seq![','] + item + seq![','] + back;
    reveal_strlit("accept");
    reveal_strlit("text/event-stream");
    let word = "accept"@;
    assert(text::lowered(word) =~= word) by {
        assert forall|i: int| 0 <= i < word.len() implies #[trigger] text::lowered(word)[i]
            == word[i] by {
            assert(!('A' <= word[i] && word[i] <= 'Z'));
        }
    }
    assert(name.len() == text::lowered(name).len());
    assert forall|i: int| 0 <= i < name.len() implies !text::is_white_space(#[trigger] name[i])
        && name[i] != ':' by {
        assert(text::lowered(name)[i] == word[i]);
        assert('a' <= word[i] && word[i] <= 'z');
        lemma_plain(name, i);
    }
    lemma_trim_padding(name);
    lemma_media_type(media, parameters);
    assert forall|i: int| 0 <= i < item.len() implies #[trigger] item[i] != ',' by {
        if 0 < i <= media.len() {
            assert(item[i] == media[i - 1]);
            let c = "text/event-stream"@[i - 1];
            assert(text::lowered(media)[i - 1] == c);
            assert(('a' <= c && c <= 'z') || c == '/' || c == '-');
            lemma_plain(media, i - 1);
        } else if i > 0 {
            assert(item[i] == parameters[i - 1 - media.len()]);
        }
    }
    text_laws::text_without_separator_is_one_part(item, ',');
    text_laws::text_is_parted_at_its_separator(name, ':', item);
    text_laws::text_is_parted_at_its_separator(name, ':', listed);
    assert(text::split(item, ',')[0] == item);
    let start = front + seq![','] + item;
    text_laws::parts_follow(front, ',', item);
    text_laws::parts_follow(start, ',', back);
    let at = text::split(front, ',').len() as int;
    assert(text::split(start, ',') == text::split(front, ',') + text::split(item, ','));
    assert(listed == start + seq![','] + back);
    assert(text::split(listed, ',') == text::split(start, ',') + text::split(back, ','));
    assert(text::split(listed, ',')[at] == item);
    lemma_accepts(name + seq![':'] + listed, name, listed, at);
    lemma_accepts(name + seq![':'] + item, name, item, 0);
}

/// A request accepts event streams if a field of its head does; the request line
/// does not count.
pub proof fn head_accepts_event_streams(raw: Seq<u8>, first: Seq<char>, fields: Seq<Seq<char>>)
    requires
        text_laws::is_plain_line(first),
        forall|i: int| 0 <= i < fields.len() ==> text_laws::is_plain_line(#[trigger] fields[i]),
        bytes::utf8_lossy(jsonrpc::request_head(raw)) == text_laws::ended(
            seq![first] + fields,
        ),
    ensures
        jsonrpc::accepts_sse(raw) <==> exists|i: int|
            0 <= i < fields.len() && jsonrpc::line_accepts_sse(#[trigger] fields[i]),
{
    let all = seq![first] + fields;
    assert forall|i: int| 0 <= i < all.len() implies text_laws::is_plain_line(#[trigger] all[i]) by {
        if i > 0 {
            assert(all[i] == fields[i - 1]);
        }
    }
    text_laws::ended_lines_read_back(all);
    if jsonrpc::accepts_sse(raw) {
        let i = choose|i: int| 1 <= i < all.len() && jsonrpc::line_accepts_sse(#[trigger] all[i]);
        assert(fields[i - 1] == all[i]);
    }
    if exists|i: int| 0 <= i < fields.len() && jsonrpc::line_accepts_sse(#[trigger] fields[i]) {
        let i = choose|i: int|
            0 <= i < fields.len() && jsonrpc::line_accepts_sse(#[trigger] fields[i]);
        assert(all[i + 1] == fields[i]);
    }
}

/// A line that is no field, or a field of another name, accepts no event streams.
pub proof fn other_fields_accept_no_event_streams(
    name: Seq<char>,
    value: Seq<char>,
    line: Seq<char>,
)
    requires
        text_laws::is_one_word(name),
        forall|i: int| 0 <= i < name.len() ==> #[trigger] name[i] != ':',
        text::lowered(name) != "accept"@,
        forall|i: int| 0 <= i < line.len() ==> #[trigger] line[i] != ':',
    ensures
        !jsonrpc::line_accepts_sse(name + seq![':'] + value),
        !jsonrpc::line_accepts_sse(line),
{
    reveal_strlit("accept");
    let word = "accept"@;
    assert(text::lowered(word) =~= word) by {
        assert forall|i: int| 0 <= i < word.len() implies #[trigger] text::lowered(word)[i]
            == word[i] by {
            assert(!('A' <= word[i] && word[i] <= 'Z'));
        }
    }
    text_laws::text_is_parted_at_its_separator(name, ':', value);
    assert(!text::is_white_space(name[0]) && !text::is_white_space(name[name.len() - 1]));
    lemma_trim_padding(name);
    text_laws::parts_make_up_the_text(line, ':');
    if let Some((before, after)) = text::split_once(line, ':') {
        assert(line[before.len() as int] == ':');
    }
}

/// A response has a result or an error, and not both; an id that is a text, a number
/// or null; and an object for its error, if it has one. Nothing else is asked of it.
pub proof fn response_has_one_outcome_and_an_id(value: Json)
    ensures
        jsonrpc::response_fault(value) is None <==> {
            &&& value.field("result"@) is Some <==> value.field("error"@) is None
            &&& value.field("id"@) matches Some(id) && (id is Text || id is Number || id is Null)
            &&& value.field("error"@) matches Some(error) ==> error is Object
        },
{
}

/// A response that is none is told by the first thing that is wrong with it.
pub proof fn faulty_response_is_told(value: Json)
    ensures
        ({
            let told = jsonrpc::response_fault(value);
            let result = value.field("result"@) is Some;
            let error = value.field("error"@);
            let id = value.field("id"@);
            &&& result && error is Some ==> told == Some(
                "JSON-RPC response includes both result and error"@,
            )
            &&& !result && error is None ==> told == Some(
                "JSON-RPC response missing result or error"@,
            )
            &&& (result <==> error is None) && id is None ==> told == Some(
                "JSON-RPC response missing id"@,
            )
            &&& (result <==> error is None) && (id matches Some(found) && (found is Array
                || found is Object || found is Bool)) ==> told == Some(
                "JSON-RPC response id must be string, number, or null"@,
            )
            &&& !result && (error matches Some(found) && !(found is Object)) && (id matches Some(
                found,
            ) && (found is Text || found is Number || found is Null)) ==> told == Some(
                "JSON-RPC response error must be an object"@,
            )
        }),
{
}

/// A rejected request shows policy nothing but its error; an accepted one shows what
/// it is and no error. Neither is a receive stream.
pub proof fn rejected_request_shows_its_error_alone(
    calls: Seq<CallModel>,
    is_batch: bool,
    has_response: bool,
    revision: Option<crate::l7::protocol::McpProtocolVersion>,
    error: jsonrpc::ErrorModel,
)
    ensures
        ({
            let rejected = jsonrpc::rejection(is_batch, error);
            let accepted = jsonrpc::acceptance(calls, is_batch, has_response, revision);
            &&& rejected.error == Some(error) && accepted.error is None
            &&& rejected.calls.len() == 0 && accepted.calls == calls
            &&& rejected.is_batch == is_batch && accepted.is_batch == is_batch
            &&& !rejected.has_response && accepted.has_response == has_response
            &&& rejected.mcp_revision is None && accepted.mcp_revision == revision
            &&& !rejected.receive_stream && !accepted.receive_stream
        }),
{
}

} // verus!
