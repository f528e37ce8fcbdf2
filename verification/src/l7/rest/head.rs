//! HTTP response heads: status lines, header fields and framing.

use crate::numeral;
use crate::numeral::{number_of, Base};
use crate::text;
use crate::text::{
    chars_of, has_part, holds_text, lines_of, part_before, same, same_ignoring_case, split_parts,
    to_lower, trimmed, without_prefix, words_of, CharClass,
};
use vstd::prelude::*;

verus! {

/// The status code of a response head, read leniently: the second word of its
/// first line as a number.
pub open spec fn status_code(head: Seq<char>) -> Option<nat> {
    let lines = text::lines(head);
    if lines.len() == 0 || text::words(lines[0]).len() < 2 {
        None
    } else {
        numeral::number(text::words(lines[0])[1], Base::Decimal, u16::MAX as nat)
    }
}

/// Reads the status code from a status line such as `HTTP/1.1 200 OK`.
pub fn parse_status_code(headers: &str) -> (code: Option<u16>)
    ensures
        match code {
            Some(c) => status_code(headers@) == Some(c as nat),
            None => status_code(headers@) is None,
        },
{
    let lines = lines_of(headers);
    assert(text::texts(lines@).len() == lines@.len());
    if lines.len() == 0 {
        return None;
    }
    assert(text::texts(lines@)[0] == lines@[0]@);
    let words = words_of(lines[0].as_str());
    assert(text::texts(words@).len() == words@.len());
    if words.len() < 2 {
        return None;
    }
    assert(text::texts(words@)[1] == words@[1]@);
    match number_of(words[1].as_str(), Base::Decimal, u16::MAX as u64) {
        Some(code) => Some(code as u16),
        None => None,
    }
}

/// Whether a character is an ASCII digit.
pub open spec fn is_digit(c: char) -> bool {
    '0' <= c && c <= '9'
}

/// The status code of a syntactically valid HTTP/1.x status line.
pub open spec fn observed_status_code(head: Seq<char>) -> Option<nat> {
    let lines = text::lines(head);
    if lines.len() == 0 {
        None
    } else {
        let words = text::words(lines[0]);
        if words.len() < 2 || !(words[0] == "HTTP/1.0"@ || words[0] == "HTTP/1.1"@) {
            None
        } else {
            let code = words[1];
            if code.len() == 3 && is_digit(code[0]) && is_digit(code[1]) && is_digit(code[2]) {
                match numeral::number(code, Base::Decimal, u16::MAX as nat) {
                    Some(status) => if 100 <= status <= 999 {
                        Some(status)
                    } else {
                        None
                    },
                    None => None,
                }
            } else {
                None
            }
        }
    }
}

/// Reads the status code of a syntactically valid HTTP/1.x status line.
pub fn parse_observed_http_status_code(headers: &str) -> (code: Option<u16>)
    ensures
        match code {
            Some(c) => observed_status_code(headers@) == Some(c as nat),
            None => observed_status_code(headers@) is None,
        },
{
    let lines = lines_of(headers);
    assert(text::texts(lines@).len() == lines@.len());
    if lines.len() == 0 {
        return None;
    }
    assert(text::texts(lines@)[0] == lines@[0]@);
    let words = words_of(lines[0].as_str());
    assert(text::texts(words@).len() == words@.len());
    if words.len() < 2 {
        return None;
    }
    assert(text::texts(words@)[0] == words@[0]@);
    assert(text::texts(words@)[1] == words@[1]@);
    if !(same(words[0].as_str(), "HTTP/1.0") || same(words[0].as_str(), "HTTP/1.1")) {
        return None;
    }
    let code = chars_of(words[1].as_str());
    if code.len() != 3 {
        return None;
    }
    if !('0' <= code[0] && code[0] <= '9' && '0' <= code[1] && code[1] <= '9' && '0' <= code[2]
        && code[2] <= '9') {
        return None;
    }
    match number_of(words[1].as_str(), Base::Decimal, u16::MAX as u64) {
        Some(status) => if 100 <= status && status <= 999 {
            Some(status as u16)
        } else {
            None
        },
        None => None,
    }
}

/// Whether a header line is a `Connection` header that closes the connection.
pub open spec fn line_closes(line: Seq<char>) -> bool {
    match text::strip_prefix(text::lowered(line), "connection:"@) {
        Some(value) => text::contains(text::trim(value, CharClass::WhiteSpace), "close"@),
        None => false,
    }
}

/// Whether a header line after the status line closes the connection.
pub open spec fn connection_closes(head: Seq<char>) -> bool {
    exists|i: int| 1 <= i < text::lines(head).len() && line_closes(#[trigger] text::lines(head)[i])
}

fn close_line(line: &str) -> (r: bool)
    ensures
        r == line_closes(line@),
{
    let lower = to_lower(line);
    match without_prefix(lower.as_str(), "connection:") {
        Some(value) => has_part(trimmed(value.as_str(), CharClass::WhiteSpace).as_str(), "close"),
        None => false,
    }
}

/// Checks whether the headers contain `Connection: close`.
#[verifier::loop_isolation(false)]
pub fn parse_connection_close(headers: &str) -> (r: bool)
    ensures
        r == connection_closes(headers@),
{
    let lines = lines_of(headers);
    let ghost all = text::lines(headers@);
    let mut i: usize = 1;
    while i < lines.len()
        invariant
            1 <= i,
            text::texts(lines@) == all,
            forall|j: int| 1 <= j < i ==> !line_closes(#[trigger] all[j]),
        decreases lines@.len() - i,
    {
        assert(all[i as int] == lines@[i as int]@);
        if close_line(lines[i].as_str()) {
            return true;
        }
        i += 1;
    }
    false
}

/// Whether a list of comma-separated tokens holds `keep-alive`.
pub open spec fn lists_keep_alive(value: Seq<char>) -> bool {
    exists|i: int|
        0 <= i < text::split(value, ',').len() && text::trim(
            #[trigger] text::split(value, ',')[i],
            CharClass::WhiteSpace,
        ) == "keep-alive"@
}

/// Whether a header line is a `Connection` header that keeps the connection.
pub open spec fn line_keeps_alive(line: Seq<char>) -> bool {
    match text::strip_prefix(text::lowered(line), "connection:"@) {
        Some(value) => lists_keep_alive(value),
        None => false,
    }
}

/// Whether a header line after the status line keeps the connection.
pub open spec fn connection_keeps_alive(head: Seq<char>) -> bool {
    exists|i: int| 1 <= i < text::lines(head).len() && line_keeps_alive(#[trigger] text::lines(head)[i])
}

#[verifier::loop_isolation(false)]
fn keep_alive_line(line: &str) -> (r: bool)
    ensures
        r == line_keeps_alive(line@),
{
    let lower = to_lower(line);
    let value = match without_prefix(lower.as_str(), "connection:") {
        Some(value) => value,
        None => {
            return false;
        },
    };
    let tokens = split_parts(value.as_str(), ',');
    let ghost all = text::split(value@, ',');
    let mut i: usize = 0;
    while i < tokens.len()
        invariant
            i <= tokens@.len(),
            text::texts(tokens@) == all,
            forall|k: int|
                0 <= k < i ==> text::trim(#[trigger] all[k], CharClass::WhiteSpace)
                    != "keep-alive"@,
        decreases tokens@.len() - i,
    {
        assert(all[i as int] == tokens@[i as int]@);
        if same(trimmed(tokens[i].as_str(), CharClass::WhiteSpace).as_str(), "keep-alive") {
            return true;
        }
        i += 1;
    }
    false
}

/// Checks whether a response opts into a persistent connection.
#[verifier::loop_isolation(false)]
pub fn parse_connection_keep_alive(headers: &str) -> (r: bool)
    ensures
        r == connection_keeps_alive(headers@),
{
    let lines = lines_of(headers);
    let ghost all = text::lines(headers@);
    let mut i: usize = 1;
    while i < lines.len()
        invariant
            1 <= i,
            text::texts(lines@) == all,
            forall|k: int| 1 <= k < i && k < all.len() ==> !line_keeps_alive(#[trigger] all[k]),
        decreases lines@.len() - i,
    {
        assert(all[i as int] == lines@[i as int]@);
        if keep_alive_line(lines[i].as_str()) {
            return true;
        }
        i += 1;
    }
    false
}

/// Whether the first word of the head is `HTTP/1.0`.
pub open spec fn is_http_10(head: Seq<char>) -> bool {
    let lines = text::lines(head);
    lines.len() > 0 && text::words(lines[0]).len() > 0 && text::words(lines[0])[0] == "HTTP/1.0"@
}

/// Checks for an HTTP/1.0 response.
pub fn response_is_http_10(headers: &str) -> (r: bool)
    ensures
        r == is_http_10(headers@),
{
    let lines = lines_of(headers);
    assert(text::texts(lines@).len() == lines@.len());
    if lines.len() == 0 {
        return false;
    }
    assert(text::texts(lines@)[0] == lines@[0]@);
    let words = words_of(lines[0].as_str());
    assert(text::texts(words@).len() == words@.len());
    if words.len() == 0 {
        return false;
    }
    assert(text::texts(words@)[0] == words@[0]@);
    same(words[0].as_str(), "HTTP/1.0")
}

/// Whether a header line gives the event-stream content type.
pub open spec fn line_is_event_stream(line: Seq<char>) -> bool {
    match text::strip_prefix(text::lowered(line), "content-type:"@) {
        Some(value) => text::trim(text::before_first(value, ';'), CharClass::WhiteSpace)
            == "text/event-stream"@,
        None => false,
    }
}

/// Whether a header line after the status line gives the event-stream content
/// type.
pub open spec fn is_event_stream(head: Seq<char>) -> bool {
    exists|i: int|
        1 <= i < text::lines(head).len() && line_is_event_stream(#[trigger] text::lines(head)[i])
}

/// Checks for an event-stream response.
#[verifier::loop_isolation(false)]
pub fn response_is_event_stream(headers: &str) -> (r: bool)
    ensures
        r == is_event_stream(headers@),
{
    let lines = lines_of(headers);
    let ghost all = text::lines(headers@);
    let mut i: usize = 1;
    while i < lines.len()
        invariant
            1 <= i,
            text::texts(lines@) == all,
            forall|k: int| 1 <= k < i && k < all.len() ==> !line_is_event_stream(#[trigger] all[k]),
        decreases lines@.len() - i,
    {
        assert(all[i as int] == lines@[i as int]@);
        let lower = to_lower(lines[i].as_str());
        if let Some(value) = without_prefix(lower.as_str(), "content-type:") {
            let mime = part_before(value.as_str(), ';');
            if same(trimmed(mime.as_str(), CharClass::WhiteSpace).as_str(), "text/event-stream") {
                return true;
            }
        }
        i += 1;
    }
    false
}

/// Why a response head or trailer is not taken.
#[derive(Debug, PartialEq, Eq)]
pub enum ResponseFieldError {
    StatusLine,
    FieldName,
    FieldValue,
    MalformedField,
    /// The token list of a `Trailer` field, with its diagnostic.
    TokenList(String),
    ProtectedTrailer,
    IncompleteStatusLine,
    StatusLineEncoding,
    TrailerEncoding,
    MalformedTrailer,
    ProtectedTrailerField,
    TrailerCount,
}

/// What a [`ResponseFieldError`] denotes.
#[verifier::ext_equal]
pub enum FieldFault {
    StatusLine,
    FieldName,
    FieldValue,
    MalformedField,
    TokenList(Seq<char>),
    ProtectedTrailer,
    IncompleteStatusLine,
    StatusLineEncoding,
    TrailerEncoding,
    MalformedTrailer,
    ProtectedTrailerField,
    TrailerCount,
}

impl View for ResponseFieldError {
    type V = FieldFault;

    open spec fn view(&self) -> FieldFault {
        match self {
            ResponseFieldError::StatusLine => FieldFault::StatusLine,
            ResponseFieldError::FieldName => FieldFault::FieldName,
            ResponseFieldError::FieldValue => FieldFault::FieldValue,
            ResponseFieldError::MalformedField => FieldFault::MalformedField,
            ResponseFieldError::TokenList(detail) => FieldFault::TokenList(detail@),
            ResponseFieldError::ProtectedTrailer => FieldFault::ProtectedTrailer,
            ResponseFieldError::IncompleteStatusLine => FieldFault::IncompleteStatusLine,
            ResponseFieldError::StatusLineEncoding => FieldFault::StatusLineEncoding,
            ResponseFieldError::TrailerEncoding => FieldFault::TrailerEncoding,
            ResponseFieldError::MalformedTrailer => FieldFault::MalformedTrailer,
            ResponseFieldError::ProtectedTrailerField => FieldFault::ProtectedTrailerField,
            ResponseFieldError::TrailerCount => FieldFault::TrailerCount,
        }
    }
}

/// The diagnostic of a field fault.
pub open spec fn fault_text(fault: FieldFault) -> Seq<char> {
    match fault {
        FieldFault::StatusLine => "HTTP response status line is malformed"@,
        FieldFault::FieldName => "HTTP response field name is malformed"@,
        FieldFault::FieldValue => "HTTP response field value contains a control byte"@,
        FieldFault::MalformedField => "Malformed HTTP response header field"@,
        FieldFault::TokenList(detail) => detail,
        FieldFault::ProtectedTrailer => "HTTP response declares a protected trailer field"@,
        FieldFault::IncompleteStatusLine => "HTTP response status line is incomplete"@,
        FieldFault::StatusLineEncoding => "HTTP response status line contains invalid UTF-8"@,
        FieldFault::TrailerEncoding => "HTTP response trailer contains invalid UTF-8"@,
        FieldFault::MalformedTrailer => "Malformed HTTP response trailer"@,
        FieldFault::ProtectedTrailerField => "HTTP response trailer uses a protected field name"@,
        FieldFault::TrailerCount => "HTTP response trailer count exceeds limit"@,
    }
}

impl ResponseFieldError {
    /// The diagnostic.
    pub fn message(&self) -> (r: String)
        ensures
            r@ == fault_text(self@),
    {
        match self {
            ResponseFieldError::StatusLine => "HTTP response status line is malformed".to_string(),
            ResponseFieldError::FieldName => "HTTP response field name is malformed".to_string(),
            ResponseFieldError::FieldValue => {
                "HTTP response field value contains a control byte".to_string()
            },
            ResponseFieldError::MalformedField => {
                "Malformed HTTP response header field".to_string()
            },
            ResponseFieldError::TokenList(detail) => detail.clone(),
            ResponseFieldError::ProtectedTrailer => {
                "HTTP response declares a protected trailer field".to_string()
            },
            ResponseFieldError::IncompleteStatusLine => {
                "HTTP response status line is incomplete".to_string()
            },
            ResponseFieldError::StatusLineEncoding => {
                "HTTP response status line contains invalid UTF-8".to_string()
            },
            ResponseFieldError::TrailerEncoding => {
                "HTTP response trailer contains invalid UTF-8".to_string()
            },
            ResponseFieldError::MalformedTrailer => "Malformed HTTP response trailer".to_string(),
            ResponseFieldError::ProtectedTrailerField => {
                "HTTP response trailer uses a protected field name".to_string()
            },
            ResponseFieldError::TrailerCount => {
                "HTTP response trailer count exceeds limit".to_string()
            },
        }
    }
}

/// Whether a character may stand in a field name.
pub open spec fn is_field_name_char(c: char) -> bool {
    ||| 'a' <= c && c <= 'z'
    ||| 'A' <= c && c <= 'Z'
    ||| '0' <= c && c <= '9'
    ||| c == '!' || c == '#' || c == '$' || c == '%' || c == '&' || c == '\'' || c == '*'
    ||| c == '+' || c == '-' || c == '.' || c == '^' || c == '_' || c == '`' || c == '|' || c == '~'
}

/// Whether a text is a field name: one token.
pub open spec fn is_field_name(name: Seq<char>) -> bool {
    name.len() > 0 && forall|i: int| 0 <= i < name.len() ==> is_field_name_char(#[trigger] name[i])
}

/// Whether a character is a control that no field value may hold.
pub open spec fn is_control(c: char) -> bool {
    (c < '\u{20}' && c != '\t') || c == '\u{7f}'
}

/// Whether a text is a field value: no control but the tab.
pub open spec fn is_field_value(value: Seq<char>) -> bool {
    forall|i: int| 0 <= i < value.len() ==> !is_control(#[trigger] value[i])
}

/// Checks a field name.
pub fn validate_http_field_name(name: &str) -> (r: Result<(), ResponseFieldError>)
    ensures
        match r {
            Ok(_) => is_field_name(name@),
            Err(error) => !is_field_name(name@) && error@ == FieldFault::FieldName,
        },
{
    let chars = chars_of(name);
    if chars.len() == 0 {
        return Err(ResponseFieldError::FieldName);
    }
    let mut i: usize = 0;
    while i < chars.len()
        invariant
            i <= chars@.len(),
            chars@ == name@,
            forall|k: int| 0 <= k < i ==> is_field_name_char(#[trigger] chars@[k]),
        decreases chars@.len() - i,
    {
        let c = chars[i];
        let valid = ('a' <= c && c <= 'z') || ('A' <= c && c <= 'Z') || ('0' <= c && c <= '9') || c
            == '!' || c == '#' || c == '$' || c == '%' || c == '&' || c == '\'' || c == '*' || c
            == '+' || c == '-' || c == '.' || c == '^' || c == '_' || c == '`' || c == '|' || c
            == '~';
        assert(valid == is_field_name_char(name@[i as int]));
        if !valid {
            return Err(ResponseFieldError::FieldName);
        }
        i += 1;
    }
    Ok(())
}

/// Checks a field value.
pub fn validate_http_field_value(value: &str) -> (r: Result<(), ResponseFieldError>)
    ensures
        match r {
            Ok(_) => is_field_value(value@),
            Err(error) => !is_field_value(value@) && error@ == FieldFault::FieldValue,
        },
{
    let chars = chars_of(value);
    let mut i: usize = 0;
    while i < chars.len()
        invariant
            i <= chars@.len(),
            chars@ == value@,
            forall|k: int| 0 <= k < i ==> !is_control(#[trigger] chars@[k]),
        decreases chars@.len() - i,
    {
        let c = chars[i];
        let control = (c < '\u{20}' && c != '\t') || c == '\u{7f}';
        assert(control == is_control(value@[i as int]));
        if control {
            return Err(ResponseFieldError::FieldValue);
        }
        i += 1;
    }
    Ok(())
}

/// Whether a field belongs to one connection and is hidden from middleware.
pub open spec fn is_hidden_field(name: Seq<char>) -> bool {
    let lower = text::lowered(name);
    ||| lower == "connection"@
    ||| lower == "keep-alive"@
    ||| lower == "proxy-authenticate"@
    ||| lower == "proxy-authorization"@
    ||| lower == "proxy-connection"@
    ||| lower == "te"@
    ||| lower == "trailer"@
    ||| lower == "transfer-encoding"@
    ||| lower == "upgrade"@
}

/// Checks for a field that is hidden from middleware.
pub fn is_hidden_response_field(name: &str) -> (r: bool)
    ensures
        r == is_hidden_field(name@),
{
    let lower = to_lower(name);
    let lower = lower.as_str();
    same(lower, "connection") || same(lower, "keep-alive") || same(lower, "proxy-authenticate")
        || same(lower, "proxy-authorization") || same(lower, "proxy-connection") || same(
        lower,
        "te",
    ) || same(lower, "trailer") || same(lower, "transfer-encoding") || same(lower, "upgrade")
}

/// Names of response fields, in lower case, that carry credentials.
#[derive(Debug)]
pub struct CredentialFields {
    pub names: Vec<String>,
}

impl CredentialFields {
    /// Whether a name is one of them, in any case.
    pub open spec fn has_name(self, name: Seq<char>) -> bool {
        text::texts(self.names@).contains(text::lowered(name))
    }

    /// Whether a name is one of them, in any case.
    pub fn contains(&self, name: &str) -> (r: bool)
        ensures
            r == self.has_name(name@),
    {
        holds_text(&self.names, to_lower(name).as_str())
    }
}

/// Whether a field may not come as a trailer.
pub open spec fn is_protected_field(name: Seq<char>, credentials: CredentialFields) -> bool {
    ||| text::lowered(name) == text::lowered("content-length"@)
    ||| is_hidden_field(name)
    ||| credentials.has_name(name)
}

/// Checks for a field that may not come as a trailer.
pub fn is_protected_response_field(name: &str, credentials: &CredentialFields) -> (r: bool)
    ensures
        r == is_protected_field(name@, *credentials),
{
    same_ignoring_case(name, "content-length") || is_hidden_response_field(name)
        || credentials.contains(name)
}

/// One header field.
#[derive(Debug, PartialEq, Eq)]
pub struct HttpHeader {
    pub name: String,
    pub value: String,
}

/// What an [`HttpHeader`] denotes.
#[verifier::ext_equal]
pub struct HeaderModel {
    pub name: Seq<char>,
    pub value: Seq<char>,
}

impl View for HttpHeader {
    type V = HeaderModel;

    open spec fn view(&self) -> HeaderModel {
        HeaderModel { name: self.name@, value: self.value@ }
    }
}

/// What a list of header fields denotes.
pub open spec fn headers_of(list: Seq<HttpHeader>) -> Seq<HeaderModel> {
    list.map_values(|header: HttpHeader| header@)
}

impl HttpHeader {
    /// The same field.
    pub fn copy(&self) -> (r: HttpHeader)
        ensures
            r@ == self@,
    {
        HttpHeader { name: self.name.clone(), value: self.value.clone() }
    }
}

} // verus!
