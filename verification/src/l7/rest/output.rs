//! What is written to the client: heads, chunks, trailers and the responses
//! that stand for an upstream response that is not delivered.

use crate::bytes::{append_bytes, utf8_text};
use crate::json;
use crate::json::{Json, JsonNumber, JsonValue};
use crate::l7::json_text;
use crate::l7::json_text::json_text_of;
use crate::l7::provider::BodyLength;
use crate::l7::rest::head;
use crate::l7::rest::head::{
    is_protected_response_field, CredentialFields, FieldFault, HeaderModel, HttpHeader,
    ResponseFieldError,
};
use crate::l7::rest::parsed_head;
use crate::l7::rest::parsed_head::check_field;
use crate::numeral;
use crate::numeral::{number_of, numeral_of, Base};
use crate::text;
use crate::text::{
    holds_text, joined, part_before, same_ignoring_case, split_at_first, to_lower, trimmed, CharClass,
};
use vstd::prelude::*;

verus! {

broadcast use json::group_json_views;

/// The bytes of a text.
pub open spec fn utf8(s: Seq<char>) -> Seq<u8> {
    vstd::utf8::encode_utf8(s)
}

/// Appends the bytes of a string.
pub fn append_text(target: &mut Vec<u8>, s: &str)
    ensures
        final(target)@ == old(target)@ + utf8(s@),
{
    append_bytes(target, s.as_bytes());
}

/// How the relay frames the body that it writes.
#[derive(Debug, Clone, Copy, PartialEq, Eq, Structural)]
pub enum ResponseFraming {
    /// As upstream framed it.
    Preserve(BodyLength),
    /// By a known length.
    ContentLength(u64),
    /// In chunks.
    Chunked,
}

/// The line end of HTTP heads.
pub open spec fn crlf() -> Seq<char> {
    "\r\n"@
}

/// The lines of header fields. `Content-Length` is read-only metadata, so the
/// framing line stands in its place.
pub open spec fn header_lines(headers: Seq<HeaderModel>) -> Seq<char>
    decreases headers.len(),
{
    if headers.len() == 0 {
        seq![]
    } else {
        let before = header_lines(headers.drop_last());
        if text::lowered(headers.last().name) == text::lowered("content-length"@) {
            before
        } else {
            before + headers.last().name + ": "@ + headers.last().value + crlf()
        }
    }
}

/// Lines as they stand.
pub open spec fn raw_lines(lines: Seq<Seq<char>>) -> Seq<char>
    decreases lines.len(),
{
    if lines.len() == 0 {
        seq![]
    } else {
        raw_lines(lines.drop_last()) + lines.last() + crlf()
    }
}

/// The line that frames the body, if there is one.
pub open spec fn framing_line(framing: ResponseFraming) -> Seq<char> {
    match framing {
        ResponseFraming::Preserve(BodyLength::ContentLength(length))
        | ResponseFraming::ContentLength(length) => "Content-Length: "@ + numeral::numeral(
            length as nat,
            Base::Decimal,
        ) + crlf(),
        ResponseFraming::Preserve(BodyLength::Chunked) | ResponseFraming::Chunked => {
            "Transfer-Encoding: chunked\r\n"@
        },
        ResponseFraming::Preserve(BodyLength::Absent) => seq![],
    }
}

/// The line that declares trailers, if there are any.
pub open spec fn trailer_line(names: Seq<Seq<char>>) -> Seq<char> {
    if names.len() == 0 {
        seq![]
    } else {
        "Trailer: "@ + text::join(names, ", "@) + crlf()
    }
}

/// The line that closes the connection, if it is closed.
pub open spec fn close_line(connection_close: bool) -> Seq<char> {
    if connection_close {
        "Connection: close\r\n"@
    } else {
        seq![]
    }
}

/// The text of a response head.
pub open spec fn head_text(
    status_line: Seq<char>,
    headers: Seq<HeaderModel>,
    preserved: Seq<Seq<char>>,
    framing: ResponseFraming,
    connection_close: bool,
    trailers: Seq<Seq<char>>,
) -> Seq<char> {
    status_line + crlf() + header_lines(headers) + raw_lines(preserved) + framing_line(framing)
        + trailer_line(trailers) + close_line(connection_close) + crlf()
}

fn append_header_lines(output: &mut String, headers: &Vec<HttpHeader>)
    ensures
        final(output)@ == old(output)@ + header_lines(head::headers_of(headers@)),
{
    let ghost all = head::headers_of(headers@);
    let ghost start = output@;
    let mut i: usize = 0;
    assert(start + header_lines(all.take(0)) == start);
    while i < headers.len()
        invariant
            i <= headers@.len(),
            all == head::headers_of(headers@),
            output@ == start + header_lines(all.take(i as int)),
        decreases headers@.len() - i,
    {
        let ghost before = header_lines(all.take(i as int));
        assert(all.take(i + 1).drop_last() == all.take(i as int));
        assert(all.take(i + 1).last() == headers@[i as int]@);
        if !same_ignoring_case(headers[i].name.as_str(), "content-length") {
            output.append(headers[i].name.as_str());
            output.append(": ");
            output.append(headers[i].value.as_str());
            output.append("\r\n");
            assert(output@ == start + (before + headers@[i as int].name@ + ": "@
                + headers@[i as int].value@ + crlf()));
        }
        i += 1;
    }
    assert(all.take(i as int) == all);
}

fn append_raw_lines(output: &mut String, lines: &Vec<String>)
    ensures
        final(output)@ == old(output)@ + raw_lines(text::texts(lines@)),
{
    let ghost all = text::texts(lines@);
    let ghost start = output@;
    let mut i: usize = 0;
    assert(start + raw_lines(all.take(0)) == start);
    while i < lines.len()
        invariant
            i <= lines@.len(),
            all == text::texts(lines@),
            output@ == start + raw_lines(all.take(i as int)),
        decreases lines@.len() - i,
    {
        let ghost before = raw_lines(all.take(i as int));
        assert(all.take(i + 1).drop_last() == all.take(i as int));
        assert(all.take(i + 1).last() == lines@[i as int]@);
        output.append(lines[i].as_str());
        output.append("\r\n");
        assert(output@ == start + (before + lines@[i as int]@ + crlf()));
        i += 1;
    }
    assert(all.take(i as int) == all);
}

fn framing_text(framing: ResponseFraming) -> (r: String)
    ensures
        r@ == framing_line(framing),
{
    match framing {
        ResponseFraming::Preserve(BodyLength::ContentLength(length))
        | ResponseFraming::ContentLength(length) => {
            let mut r = "Content-Length: ".to_string();
            r.append(numeral_of(length, Base::Decimal).as_str());
            r.append("\r\n");
            r
        },
        ResponseFraming::Preserve(BodyLength::Chunked) | ResponseFraming::Chunked => {
            "Transfer-Encoding: chunked\r\n".to_string()
        },
        ResponseFraming::Preserve(BodyLength::Absent) => String::new(),
    }
}

fn trailer_text(names: &Vec<String>) -> (r: String)
    ensures
        r@ == trailer_line(text::texts(names@)),
{
    assert(text::texts(names@).len() == names@.len());
    if names.len() == 0 {
        return String::new();
    }
    let mut r = "Trailer: ".to_string();
    r.append(joined(names, ", ").as_str());
    r.append("\r\n");
    r
}

fn close_text(connection_close: bool) -> (r: String)
    ensures
        r@ == close_line(connection_close),
{
    if connection_close {
        "Connection: close\r\n".to_string()
    } else {
        String::new()
    }
}

/// Writes a response head. The relay emits the framing exactly once.
pub fn serialize_response_head(
    status_line: &str,
    headers: &Vec<HttpHeader>,
    preserved_credential_headers: &Vec<String>,
    framing: ResponseFraming,
    connection_close: bool,
    trailer_names: &Vec<String>,
) -> (output: Vec<u8>)
    ensures
        output@ == utf8(
            head_text(
                status_line@,
                head::headers_of(headers@),
                text::texts(preserved_credential_headers@),
                framing,
                connection_close,
                text::texts(trailer_names@),
            ),
        ),
{
    let mut output = status_line.to_string();
    output.append("\r\n");
    append_header_lines(&mut output, headers);
    append_raw_lines(&mut output, preserved_credential_headers);
    output.append(framing_text(framing).as_str());
    output.append(trailer_text(trailer_names).as_str());
    output.append(close_text(connection_close).as_str());
    output.append("\r\n");
    let mut bytes: Vec<u8> = Vec::new();
    append_text(&mut bytes, output.as_str());
    assert(bytes@ == utf8(output@));
    bytes
}

/// Fields without those of the given names, in any case.
pub open spec fn without_names(headers: Seq<HeaderModel>, names: Seq<Seq<char>>) -> Seq<HeaderModel>
    decreases headers.len(),
{
    if headers.len() == 0 {
        seq![]
    } else {
        let before = without_names(headers.drop_last(), names);
        if names.contains(text::lowered(headers.last().name)) {
            before
        } else {
            before.push(headers.last())
        }
    }
}

/// Removes the integrity fields that a changed body makes stale. `stale` holds
/// their names in lower case.
pub fn strip_response_integrity_headers(headers: &mut Vec<HttpHeader>, stale: &Vec<String>)
    ensures
        head::headers_of(final(headers)@) == without_names(
            head::headers_of(old(headers)@),
            text::texts(stale@),
        ),
{
    let ghost all = head::headers_of(headers@);
    let ghost names = text::texts(stale@);
    let mut kept: Vec<HttpHeader> = Vec::new();
    let mut i: usize = 0;
    assert(head::headers_of(kept@) == without_names(all.take(0), names));
    while i < headers.len()
        invariant
            i <= headers@.len(),
            all == head::headers_of(headers@),
            names == text::texts(stale@),
            head::headers_of(kept@) == without_names(all.take(i as int), names),
        decreases headers@.len() - i,
    {
        assert(all.take(i + 1).drop_last() == all.take(i as int));
        assert(all.take(i + 1).last() == headers@[i as int]@);
        if !holds_text(stale, to_lower(headers[i].name.as_str()).as_str()) {
            let ghost before = head::headers_of(kept@);
            let header = headers[i].copy();
            let ghost model = header@;
            kept.push(header);
            assert(head::headers_of(kept@) == before.push(model));
        }
        i += 1;
    }
    assert(all.take(i as int) == all);
    *headers = kept;
}

/// One chunk on the wire; an empty payload is no chunk, since that would end
/// the body.
pub open spec fn chunk(payload: Seq<u8>) -> Seq<u8> {
    if payload.len() == 0 {
        seq![]
    } else {
        utf8(numeral::numeral(payload.len(), Base::Hexadecimal) + crlf()) + payload + utf8(crlf())
    }
}

/// Writes one chunk.
pub fn response_chunk(payload: &[u8]) -> (output: Vec<u8>)
    ensures
        output@ == chunk(payload@),
{
    let mut output: Vec<u8> = Vec::new();
    if payload.len() == 0 {
        return output;
    }
    let mut size = numeral_of(payload.len() as u64, Base::Hexadecimal);
    size.append("\r\n");
    append_text(&mut output, size.as_str());
    assert(output@ == utf8(size@));
    append_bytes(&mut output, payload);
    append_text(&mut output, "\r\n");
    output
}

/// The size that a chunk-size line gives, if it gives one.
pub open spec fn chunk_size(line: Seq<char>) -> Option<nat> {
    numeral::number(
        text::trim(text::before_first(line, ';'), CharClass::WhiteSpace),
        Base::Hexadecimal,
        usize::MAX as nat,
    )
}

/// Why a chunk-size line gives no size.
#[derive(Debug, Clone, Copy, PartialEq, Eq, Structural)]
pub enum ChunkSizeError {
    Encoding,
    Number,
}

/// The size that the bytes of a chunk-size line give, or why they give none.
pub open spec fn chunk_size_of(line: Seq<u8>) -> Result<nat, ChunkSizeError> {
    if !vstd::utf8::valid_utf8(line) {
        Err(ChunkSizeError::Encoding)
    } else {
        match chunk_size(vstd::utf8::decode_utf8(line)) {
            Some(size) => Ok(size),
            None => Err(ChunkSizeError::Number),
        }
    }
}

/// Reads a chunk-size line.
pub fn parse_chunk_size(line: &[u8]) -> (r: Result<usize, ChunkSizeError>)
    ensures
        match r {
            Ok(size) => chunk_size_of(line@) == Ok::<nat, ChunkSizeError>(size as nat),
            Err(error) => chunk_size_of(line@) == Err::<nat, ChunkSizeError>(error),
        },
{
    let line = match utf8_text(line) {
        Some(line) => line,
        None => {
            return Err(ChunkSizeError::Encoding);
        },
    };
    let token = trimmed(part_before(line.as_str(), ';').as_str(), CharClass::WhiteSpace);
    match number_of(token.as_str(), Base::Hexadecimal, usize::MAX as u64) {
        Some(size) => Ok(size as usize),
        None => Err(ChunkSizeError::Number),
    }
}

/// The lines of trailer fields.
pub open spec fn trailer_lines(trailers: Seq<HeaderModel>) -> Seq<u8>
    decreases trailers.len(),
{
    if trailers.len() == 0 {
        seq![]
    } else {
        trailer_lines(trailers.drop_last()) + utf8(
            trailers.last().name + ": "@ + trailers.last().value + crlf(),
        )
    }
}

/// The end of a chunked body with its trailers.
pub open spec fn body_end(trailers: Seq<HeaderModel>) -> Seq<u8> {
    utf8("0\r\n"@) + trailer_lines(trailers) + utf8(crlf())
}

/// Writes the end of a chunked body with its trailers.
pub fn response_trailers(trailers: &Vec<HttpHeader>) -> (output: Vec<u8>)
    ensures
        output@ == body_end(head::headers_of(trailers@)),
{
    let ghost all = head::headers_of(trailers@);
    let mut output: Vec<u8> = Vec::new();
    append_text(&mut output, "0\r\n");
    let ghost start = utf8("0\r\n"@);
    assert(output@ == start + trailer_lines(all.take(0)));
    let mut i: usize = 0;
    while i < trailers.len()
        invariant
            i <= trailers@.len(),
            all == head::headers_of(trailers@),
            output@ == start + trailer_lines(all.take(i as int)),
        decreases trailers@.len() - i,
    {
        assert(all.take(i + 1).drop_last() == all.take(i as int));
        assert(all.take(i + 1).last() == trailers@[i as int]@);
        let ghost before = trailer_lines(all.take(i as int));
        let mut line = trailers[i].name.clone();
        line.append(": ");
        line.append(trailers[i].value.as_str());
        line.append("\r\n");
        append_text(&mut output, line.as_str());
        assert(output@ == start + (before + utf8(line@)));
        i += 1;
    }
    assert(all.take(i as int) == all);
    append_text(&mut output, "\r\n");
    output
}

/// What a trailer line gives: a field, or why it is refused.
pub open spec fn trailer_field(
    line: Seq<u8>,
    nominated: Seq<Seq<char>>,
    credentials: CredentialFields,
) -> Result<HeaderModel, FieldFault> {
    if !vstd::utf8::valid_utf8(line) {
        Err(FieldFault::TrailerEncoding)
    } else {
        match text::split_once(vstd::utf8::decode_utf8(line), ':') {
            None => Err(FieldFault::MalformedTrailer),
            Some((name, value)) => match parsed_head::field_fault(name, value) {
                Some(fault) => Err(fault),
                None => {
                    let lower = text::lowered(name);
                    if head::is_protected_field(lower, credentials) || nominated.contains(lower) {
                        Err(FieldFault::ProtectedTrailerField)
                    } else {
                        Ok(
                            HeaderModel {
                                name: lower,
                                value: text::trim(value, CharClass::WhiteSpace),
                            },
                        )
                    }
                },
            },
        }
    }
}

/// Reads a trailer line.
pub fn parse_response_trailer(
    line: &[u8],
    connection_nominated: &Vec<String>,
    credentials: &CredentialFields,
) -> (r: Result<HttpHeader, ResponseFieldError>)
    ensures
        match r {
            Ok(field) => trailer_field(
                line@,
                text::texts(connection_nominated@),
                *credentials,
            ) == Ok::<HeaderModel, FieldFault>(field@),
            Err(error) => trailer_field(
                line@,
                text::texts(connection_nominated@),
                *credentials,
            ) == Err::<HeaderModel, FieldFault>(error@),
        },
{
    let line = match utf8_text(line) {
        Some(line) => line,
        None => {
            return Err(ResponseFieldError::TrailerEncoding);
        },
    };
    let (name, value) = match split_at_first(line.as_str(), ':') {
        Some(pair) => pair,
        None => {
            return Err(ResponseFieldError::MalformedTrailer);
        },
    };
    let value = match check_field(name.as_str(), value.as_str()) {
        Ok(value) => value,
        Err(error) => {
            return Err(error);
        },
    };
    let name = to_lower(name.as_str());
    if is_protected_response_field(name.as_str(), credentials) || holds_text(
        connection_nominated,
        name.as_str(),
    ) {
        return Err(ResponseFieldError::ProtectedTrailerField);
    }
    Ok(HttpHeader { name, value })
}

/// The request whose response is relayed.
#[derive(Debug)]
pub struct HttpRequestTarget {
    pub scheme: String,
    pub method: String,
    pub host: String,
    pub port: u32,
    pub path: String,
}

/// The denial of a response by a middleware.
#[derive(Debug)]
pub struct MiddlewareDenial {
    pub config_name: String,
    pub reason_code: Option<String>,
}

/// An entry with a text.
pub open spec fn text_entry(key: Seq<char>, value: Seq<char>) -> (Seq<char>, Json) {
    (key, Json::Text(value))
}

/// The entries that describe a request.
pub open spec fn target_entries(target: HttpRequestTarget) -> Seq<(Seq<char>, Json)> {
    seq![
        text_entry("method"@, target.method@),
        text_entry("path"@, target.path@),
        text_entry("host"@, target.host@),
        ("port"@, Json::Number(json::NumberModel::Integer(target.port as int))),
    ]
}

/// The body of the response to a denial.
pub open spec fn denial_body(
    policy_name: Seq<char>,
    target: HttpRequestTarget,
    denial: MiddlewareDenial,
) -> Json {
    let start = seq![
        text_entry("error"@, "middleware_denied"@),
        text_entry("detail"@, "Response blocked by configured middleware"@),
        text_entry("policy"@, policy_name),
        text_entry("middleware"@, denial.config_name@),
    ];
    let reason = match denial.reason_code {
        Some(code) => seq![text_entry("reason_code"@, code@)],
        None => seq![],
    };
    Json::Object(
        start + reason + seq![text_entry("layer"@, "http_response_pre_return"@)] + target_entries(
            target,
        ),
    )
}

/// The body of the response to a delivery failure.
pub open spec fn failure_body(policy_name: Seq<char>, target: HttpRequestTarget) -> Json {
    let start = seq![
        text_entry("error"@, "response_delivery_failed"@),
        text_entry(
            "detail"@,
            "The upstream request may have completed, but OpenShell could not deliver its response. Retrying may repeat upstream side effects."@,
        ),
        text_entry("policy"@, policy_name),
        text_entry("layer"@, "http_response_pre_return"@),
    ];
    Json::Object(start + target_entries(target))
}

fn push_text_entry(list: &mut Vec<(String, JsonValue)>, key: &str, value: &str)
    ensures
        json::entries(final(list)@) == json::entries(old(list)@).push(text_entry(key@, value@)),
{
    let ghost before = json::entries(list@);
    let entry = (key.to_string(), JsonValue::Text(value.to_string()));
    list.push(entry);
    assert(json::entries(list@) == before.push((entry.0@, entry.1@)));
}

fn push_target(list: &mut Vec<(String, JsonValue)>, target: &HttpRequestTarget)
    ensures
        json::entries(final(list)@) == json::entries(old(list)@) + target_entries(*target),
{
    let ghost before = json::entries(list@);
    push_text_entry(list, "method", target.method.as_str());
    push_text_entry(list, "path", target.path.as_str());
    push_text_entry(list, "host", target.host.as_str());
    let ghost most = json::entries(list@);
    let entry = (
        "port".to_string(),
        JsonValue::Number(JsonNumber::Unsigned(target.port as u64)),
    );
    list.push(entry);
    assert(json::entries(list@) == most.push((entry.0@, entry.1@)));
    assert(json::entries(list@) == before + target_entries(*target));
}

/// The body that tells a client of a denial.
pub fn denial_document(policy_name: &str, target: &HttpRequestTarget, denial: &MiddlewareDenial) -> (
    body: JsonValue)
    ensures
        body@ == denial_body(policy_name@, *target, *denial),
{
    let mut list: Vec<(String, JsonValue)> = Vec::new();
    push_text_entry(&mut list, "error", "middleware_denied");
    push_text_entry(&mut list, "detail", "Response blocked by configured middleware");
    push_text_entry(&mut list, "policy", policy_name);
    push_text_entry(&mut list, "middleware", denial.config_name.as_str());
    let ghost start = json::entries(list@);
    if let Some(code) = &denial.reason_code {
        push_text_entry(&mut list, "reason_code", code.as_str());
        assert(json::entries(list@) == start + seq![text_entry("reason_code"@, code@)]);
    } else {
        assert(start == start + Seq::<(Seq<char>, Json)>::empty());
    }
    let ghost middle = json::entries(list@);
    push_text_entry(&mut list, "layer", "http_response_pre_return");
    assert(json::entries(list@) == middle + seq![
        text_entry("layer"@, "http_response_pre_return"@),
    ]);
    push_target(&mut list, target);
    assert(start == seq![
        text_entry("error"@, "middleware_denied"@),
        text_entry("detail"@, "Response blocked by configured middleware"@),
        text_entry("policy"@, policy_name@),
        text_entry("middleware"@, denial.config_name@),
    ]);
    JsonValue::Object(list)
}

/// The body that tells a client of a delivery failure.
pub fn failure_document(policy_name: &str, target: &HttpRequestTarget) -> (body: JsonValue)
    ensures
        body@ == failure_body(policy_name@, *target),
{
    let mut list: Vec<(String, JsonValue)> = Vec::new();
    push_text_entry(&mut list, "error", "response_delivery_failed");
    push_text_entry(
        &mut list,
        "detail",
        "The upstream request may have completed, but OpenShell could not deliver its response. Retrying may repeat upstream side effects.",
    );
    push_text_entry(&mut list, "policy", policy_name);
    push_text_entry(&mut list, "layer", "http_response_pre_return");
    let ghost start = json::entries(list@);
    push_target(&mut list, target);
    assert(start == seq![
        text_entry("error"@, "response_delivery_failed"@),
        text_entry(
            "detail"@,
            "The upstream request may have completed, but OpenShell could not deliver its response. Retrying may repeat upstream side effects."@,
        ),
        text_entry("policy"@, policy_name@),
        text_entry("layer"@, "http_response_pre_return"@),
    ]);
    JsonValue::Object(list)
}

/// The response that stands for an upstream response that is not delivered.
/// The response to a `HEAD` request has no body.
pub open spec fn canonical_response(
    status: Seq<char>,
    request_method: Seq<char>,
    policy_name: Seq<char>,
    body: Seq<u8>,
) -> Seq<u8> {
    let head = "HTTP/1.1 "@ + status
        + "\r\nContent-Type: application/json\r\nContent-Length: "@ + numeral::numeral(
        body.len(),
        Base::Decimal,
    ) + "\r\nX-OpenShell-Policy: "@ + policy_name + "\r\nConnection: close\r\n\r\n"@;
    if text::lowered(request_method) == text::lowered("HEAD"@) {
        utf8(head)
    } else {
        utf8(head) + body
    }
}

/// Writes the response that stands for an upstream response that is not
/// delivered, with a body of the given bytes.
pub fn write_canonical_response(
    status: &str,
    request_method: &str,
    policy_name: &str,
    body: &[u8],
) -> (output: Vec<u8>)
    ensures
        output@ == canonical_response(status@, request_method@, policy_name@, body@),
{
    let mut head = "HTTP/1.1 ".to_string();
    head.append(status);
    head.append("\r\nContent-Type: application/json\r\nContent-Length: ");
    head.append(numeral_of(body.len() as u64, Base::Decimal).as_str());
    head.append("\r\nX-OpenShell-Policy: ");
    head.append(policy_name);
    head.append("\r\nConnection: close\r\n\r\n");
    let mut output: Vec<u8> = Vec::new();
    append_text(&mut output, head.as_str());
    assert(output@ == utf8(head@));
    if !same_ignoring_case(request_method, "HEAD") {
        append_bytes(&mut output, body);
    }
    output
}

/// The response to a denial by a middleware.
pub fn response_middleware_denial(
    request_method: &str,
    policy_name: &str,
    target: &HttpRequestTarget,
    denial: &MiddlewareDenial,
) -> (output: Vec<u8>)
    ensures
        output@ == canonical_response(
            "403 Forbidden"@,
            request_method@,
            policy_name@,
            utf8(json_text::json_text(denial_body(policy_name@, *target, *denial))),
        ),
{
    let body = json_text_of(&denial_document(policy_name, target, denial));
    write_canonical_response("403 Forbidden", request_method, policy_name, body.as_str().as_bytes())
}

/// The response to a delivery failure.
pub fn response_delivery_failure(
    request_method: &str,
    policy_name: &str,
    target: &HttpRequestTarget,
) -> (output: Vec<u8>)
    ensures
        output@ == canonical_response(
            "502 Bad Gateway"@,
            request_method@,
            policy_name@,
            utf8(json_text::json_text(failure_body(policy_name@, *target))),
        ),
{
    let body = json_text_of(&failure_document(policy_name, target));
    write_canonical_response("502 Bad Gateway", request_method, policy_name, body.as_str().as_bytes())
}

} // verus!
