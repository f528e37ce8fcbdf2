//! Response heads as middleware sees them.

use crate::bytes;
use crate::bytes::{slice, utf8_text, utf8_text_lossy};
use crate::l7::rest::head;
use crate::l7::rest::head::{
    is_hidden_response_field, is_protected_response_field, parse_status_code,
    validate_http_field_name, validate_http_field_value, CredentialFields, FieldFault, HeaderModel,
    HttpHeader, ResponseFieldError,
};
use crate::text;
use crate::text::{
    chars_of, comes_before, holds_text, same, same_ignoring_case, split_at_first, split_crlf_parts,
    split_parts, to_lower, trimmed, CharClass,
};
use vstd::prelude::*;

verus! {

/// A response head normalized for middleware.
#[derive(Debug)]
pub struct ParsedResponseHead {
    /// Whether the head is text that middleware can be shown.
    pub representable: bool,
    /// The fields that middleware sees, with names in lower case.
    pub headers: Vec<HttpHeader>,
    /// The lines of credential fields, which middleware does not see.
    pub preserved_credential_headers: Vec<String>,
    /// The names that `Connection` fields nominate, sorted.
    pub connection_nominated: Vec<String>,
    /// The names that `Trailer` fields declare.
    pub declared_trailers: Vec<String>,
}

/// What a [`ParsedResponseHead`] denotes.
#[verifier::ext_equal]
pub struct HeadModel {
    pub representable: bool,
    pub headers: Seq<HeaderModel>,
    pub preserved_credential_headers: Seq<Seq<char>>,
    pub connection_nominated: Seq<Seq<char>>,
    pub declared_trailers: Seq<Seq<char>>,
}

impl View for ParsedResponseHead {
    type V = HeadModel;

    open spec fn view(&self) -> HeadModel {
        HeadModel {
            representable: self.representable,
            headers: head::headers_of(self.headers@),
            preserved_credential_headers: text::texts(self.preserved_credential_headers@),
            connection_nominated: text::texts(self.connection_nominated@),
            declared_trailers: text::texts(self.declared_trailers@),
        }
    }
}

/// A list in ascending order with a text put in its place, unless it is there.
pub open spec fn with_name(list: Seq<Seq<char>>, name: Seq<char>) -> Seq<Seq<char>>
    decreases list.len(),
{
    if list.len() == 0 {
        seq![name]
    } else if list[0] == name {
        list
    } else if text::precedes(name, list[0]) {
        seq![name] + list
    } else {
        seq![list[0]] + with_name(list.skip(1), name)
    }
}

fn add_name(list: &mut Vec<String>, name: String)
    ensures
        text::texts(final(list)@) == with_name(text::texts(old(list)@), name@),
{
    let ghost all = text::texts(list@);
    let mut i: usize = 0;
    assert(all.skip(0) == all);
    assert(all.take(0) + with_name(all.skip(0), name@) == with_name(all, name@));
    while i < list.len()
        invariant
            i <= list@.len(),
            all == text::texts(list@),
            all == text::texts(old(list)@),
            with_name(all, name@) == all.take(i as int) + with_name(all.skip(i as int), name@),
        decreases list@.len() - i,
    {
        let ghost rest = all.skip(i as int);
        assert(rest[0] == list@[i as int]@);
        assert(rest.skip(1) == all.skip(i + 1));
        if same(list[i].as_str(), name.as_str()) {
            assert(all.take(i as int) + rest == all);
            return ;
        }
        if comes_before(name.as_str(), list[i].as_str()) {
            let ghost named = name@;
            list.insert(i, name);
            assert(text::texts(list@) == all.take(i as int) + (seq![named] + rest));
            return ;
        }
        assert(all.take(i as int) + (seq![rest[0]] + with_name(rest.skip(1), name@)) == all.take(
            i + 1,
        ) + with_name(all.skip(i + 1), name@));
        i += 1;
    }
    assert(all.take(i as int) == all);
    let ghost named = name@;
    list.push(name);
    assert(text::texts(list@) == all + seq![named]);
}

/// The tokens of a comma-separated list, in lower case, without empty ones,
/// added to a sorted list.
pub open spec fn with_tokens(list: Seq<Seq<char>>, parts: Seq<Seq<char>>) -> Seq<Seq<char>>
    decreases parts.len(),
{
    if parts.len() == 0 {
        list
    } else {
        let before = with_tokens(list, parts.drop_last());
        let token = text::trim(parts.last(), CharClass::WhiteSpace);
        if token.len() == 0 {
            before
        } else {
            with_name(before, text::lowered(token))
        }
    }
}

fn add_tokens(list: &mut Vec<String>, value: &str)
    ensures
        text::texts(final(list)@) == with_tokens(
            text::texts(old(list)@),
            text::split(value@, ','),
        ),
{
    let parts = split_parts(value, ',');
    let ghost all = text::split(value@, ',');
    let ghost start = text::texts(list@);
    let mut i: usize = 0;
    while i < parts.len()
        invariant
            i <= parts@.len(),
            text::texts(parts@) == all,
            text::texts(list@) == with_tokens(start, all.take(i as int)),
        decreases parts@.len() - i,
    {
        assert(all.take(i + 1).drop_last() == all.take(i as int));
        assert(all.take(i + 1).last() == parts@[i as int]@);
        let token = trimmed(parts[i].as_str(), CharClass::WhiteSpace);
        if chars_of(token.as_str()).len() > 0 {
            add_name(list, to_lower(token.as_str()));
        }
        i += 1;
    }
    assert(all.take(i as int) == all);
}

/// A list with texts, in lower case, appended that it does not hold yet.
pub open spec fn with_new(list: Seq<Seq<char>>, tokens: Seq<Seq<char>>) -> Seq<Seq<char>>
    decreases tokens.len(),
{
    if tokens.len() == 0 {
        list
    } else {
        let before = with_new(list, tokens.drop_last());
        let token = text::lowered(tokens.last());
        if before.contains(token) {
            before
        } else {
            before.push(token)
        }
    }
}

fn add_new(list: &mut Vec<String>, tokens: &Vec<String>)
    ensures
        text::texts(final(list)@) == with_new(text::texts(old(list)@), text::texts(tokens@)),
{
    let ghost all = text::texts(tokens@);
    let ghost start = text::texts(list@);
    let mut i: usize = 0;
    while i < tokens.len()
        invariant
            i <= tokens@.len(),
            text::texts(tokens@) == all,
            text::texts(list@) == with_new(start, all.take(i as int)),
        decreases tokens@.len() - i,
    {
        assert(all.take(i + 1).drop_last() == all.take(i as int));
        assert(all.take(i + 1).last() == tokens@[i as int]@);
        let token = to_lower(tokens[i].as_str());
        if !holds_text(list, token.as_str()) {
            let ghost before = text::texts(list@);
            list.push(token);
            assert(text::texts(list@) == before.push(token@));
        }
        i += 1;
    }
    assert(all.take(i as int) == all);
}

/// What the token list of a `Trailer` field is: its tokens, or why it is none.
pub open spec fn token_list(list: Result<Vec<String>, String>) -> Result<Seq<Seq<char>>, Seq<char>> {
    match list {
        Ok(tokens) => Ok(text::texts(tokens@)),
        Err(detail) => Err(detail@),
    }
}

/// What token lists are.
pub open spec fn token_lists(lists: Seq<Result<Vec<String>, String>>) -> Seq<
    Result<Seq<Seq<char>>, Seq<char>>,
> {
    lists.map_values(|list: Result<Vec<String>, String>| token_list(list))
}

/// What the first pass over the header lines gathers.
#[verifier::ext_equal]
pub struct Scan {
    /// Names that `Connection` fields nominate, sorted.
    pub nominated: Seq<Seq<char>>,
    /// Names that `Trailer` fields declare.
    pub trailers: Seq<Seq<char>>,
    /// How many `Trailer` fields there were.
    pub trailer_fields: nat,
}

/// The fault of a field, if its name or value is malformed.
pub open spec fn field_fault(name: Seq<char>, value: Seq<char>) -> Option<FieldFault> {
    if !head::is_field_name(name) {
        Some(FieldFault::FieldName)
    } else if !head::is_field_value(text::trim(value, CharClass::WhiteSpace)) {
        Some(FieldFault::FieldValue)
    } else {
        None
    }
}

/// The diagnostic of a `Trailer` field whose token list is not given.
pub open spec fn unread_list() -> Seq<char> {
    "HTTP response trailer list was not read"@
}

/// What the first pass gathers from one more field.
pub open spec fn scan_field(
    before: Scan,
    name: Seq<char>,
    value: Seq<char>,
    lists: Seq<Result<Seq<Seq<char>>, Seq<char>>>,
) -> Result<Scan, FieldFault> {
    match field_fault(name, value) {
        Some(fault) => Err(fault),
        None => if text::lowered(name) == text::lowered("connection"@) {
            Ok(Scan { nominated: with_tokens(before.nominated, text::split(value, ',')), ..before })
        } else if text::lowered(name) == text::lowered("trailer"@) {
            if before.trailer_fields < lists.len() {
                match lists[before.trailer_fields as int] {
                    Ok(tokens) => Ok(
                        Scan {
                            nominated: before.nominated,
                            trailers: with_new(before.trailers, tokens),
                            trailer_fields: before.trailer_fields + 1,
                        },
                    ),
                    Err(detail) => Err(FieldFault::TokenList(detail)),
                }
            } else {
                Err(FieldFault::TokenList(unread_list()))
            }
        } else {
            Ok(before)
        },
    }
}

/// What the first pass gathers from header lines, or the first fault.
pub open spec fn scan(
    lines: Seq<Seq<char>>,
    lists: Seq<Result<Seq<Seq<char>>, Seq<char>>>,
) -> Result<Scan, FieldFault>
    decreases lines.len(),
{
    if lines.len() == 0 {
        Ok(Scan { nominated: seq![], trailers: seq![], trailer_fields: 0 })
    } else {
        match scan(lines.drop_last(), lists) {
            Err(fault) => Err(fault),
            Ok(before) => match text::split_once(lines.last(), ':') {
                None => Ok(before),
                Some((name, value)) => scan_field(before, name, value, lists),
            },
        }
    }
}

/// A fault in the first lines stays the fault of them all.
proof fn lemma_scan_prefix(
    lines: Seq<Seq<char>>,
    lists: Seq<Result<Seq<Seq<char>>, Seq<char>>>,
    n: int,
)
    requires
        0 <= n <= lines.len(),
        scan(lines.take(n), lists) is Err,
    ensures
        scan(lines, lists) == scan(lines.take(n), lists),
    decreases lines.len(),
{
    if n < lines.len() {
        assert(lines.drop_last().take(n) == lines.take(n));
        lemma_scan_prefix(lines.drop_last(), lists, n);
    } else {
        assert(lines.take(n) == lines);
    }
}

/// What the second pass keeps of the header lines.
#[verifier::ext_equal]
pub struct Fields {
    pub headers: Seq<HeaderModel>,
    pub preserved: Seq<Seq<char>>,
}

/// What the second pass keeps of one more line.
pub open spec fn keep_line(
    before: Fields,
    line: Seq<char>,
    nominated: Seq<Seq<char>>,
    credentials: CredentialFields,
) -> Result<Fields, FieldFault> {
    if line.len() == 0 {
        Ok(before)
    } else {
        match text::split_once(line, ':') {
            None => Err(FieldFault::MalformedField),
            Some((name, value)) => match field_fault(name, value) {
                Some(fault) => Err(fault),
                None => {
                    let lower = text::lowered(name);
                    if credentials.has_name(lower) {
                        Ok(Fields { preserved: before.preserved.push(line), ..before })
                    } else if nominated.contains(lower) || head::is_hidden_field(lower) {
                        Ok(before)
                    } else {
                        Ok(
                            Fields {
                                headers: before.headers.push(
                                    HeaderModel {
                                        name: lower,
                                        value: text::trim(value, CharClass::WhiteSpace),
                                    },
                                ),
                                ..before
                            },
                        )
                    }
                },
            },
        }
    }
}

/// What the second pass keeps of the header lines, or the first fault.
pub open spec fn kept_fields(
    lines: Seq<Seq<char>>,
    nominated: Seq<Seq<char>>,
    credentials: CredentialFields,
) -> Result<Fields, FieldFault>
    decreases lines.len(),
{
    if lines.len() == 0 {
        Ok(Fields { headers: seq![], preserved: seq![] })
    } else {
        match kept_fields(lines.drop_last(), nominated, credentials) {
            Err(fault) => Err(fault),
            Ok(before) => keep_line(before, lines.last(), nominated, credentials),
        }
    }
}

/// A fault in the first lines stays the fault of them all.
proof fn lemma_kept_prefix(
    lines: Seq<Seq<char>>,
    nominated: Seq<Seq<char>>,
    credentials: CredentialFields,
    n: int,
)
    requires
        0 <= n <= lines.len(),
        kept_fields(lines.take(n), nominated, credentials) is Err,
    ensures
        kept_fields(lines, nominated, credentials) == kept_fields(
            lines.take(n),
            nominated,
            credentials,
        ),
    decreases lines.len(),
{
    if n < lines.len() {
        assert(lines.drop_last().take(n) == lines.take(n));
        lemma_kept_prefix(lines.drop_last(), nominated, credentials, n);
    } else {
        assert(lines.take(n) == lines);
    }
}

/// Whether a declared trailer is protected or nominated by `Connection`.
pub open spec fn declares_protected(
    trailers: Seq<Seq<char>>,
    nominated: Seq<Seq<char>>,
    credentials: CredentialFields,
) -> bool {
    exists|i: int|
        0 <= i < trailers.len() && (head::is_protected_field(#[trigger] trailers[i], credentials)
            || nominated.contains(trailers[i]))
}

/// The head that middleware sees, or why it sees none.
pub open spec fn parsed_head(
    raw: Seq<u8>,
    lists: Seq<Result<Seq<Seq<char>>, Seq<char>>>,
    credentials: CredentialFields,
) -> Result<HeadModel, FieldFault> {
    let header = bytes::utf8_lossy(raw);
    let representable = vstd::utf8::valid_utf8(raw);
    let lines = text::split_crlf(header).skip(1);
    if head::status_code(header) is None {
        Err(FieldFault::StatusLine)
    } else {
        match scan(lines, lists) {
            Err(fault) => Err(fault),
            Ok(found) => if declares_protected(found.trailers, found.nominated, credentials) {
                Err(FieldFault::ProtectedTrailer)
            } else {
                match kept_fields(lines, found.nominated, credentials) {
                    Err(fault) => Err(fault),
                    Ok(fields) => Ok(
                        HeadModel {
                            representable,
                            headers: if representable {
                                fields.headers
                            } else {
                                seq![]
                            },
                            preserved_credential_headers: if representable {
                                fields.preserved
                            } else {
                                seq![]
                            },
                            connection_nominated: found.nominated,
                            declared_trailers: found.trailers,
                        },
                    ),
                }
            },
        }
    }
}

/// Checks the name and value of a field.
pub fn check_field(name: &str, value: &str) -> (r: Result<String, ResponseFieldError>)
    ensures
        match r {
            Ok(trimmed_value) => field_fault(name@, value@) is None && trimmed_value@
                == text::trim(value@, CharClass::WhiteSpace),
            Err(error) => field_fault(name@, value@) == Some(error@),
        },
{
    if let Err(error) = validate_http_field_name(name) {
        return Err(error);
    }
    let inner = trimmed(value, CharClass::WhiteSpace);
    if let Err(error) = validate_http_field_value(inner.as_str()) {
        return Err(error);
    }
    Ok(inner)
}

struct ScanState {
    nominated: Vec<String>,
    trailers: Vec<String>,
    trailer_fields: usize,
}

impl View for ScanState {
    type V = Scan;

    closed spec fn view(&self) -> Scan {
        Scan {
            nominated: text::texts(self.nominated@),
            trailers: text::texts(self.trailers@),
            trailer_fields: self.trailer_fields as nat,
        }
    }
}

fn scan_one(
    state: &mut ScanState,
    name: &str,
    value: &str,
    lists: &Vec<Result<Vec<String>, String>>,
) -> (r: Result<(), ResponseFieldError>)
    requires
        old(state).trailer_fields < usize::MAX,
    ensures
        match r {
            Ok(_) => scan_field(old(state)@, name@, value@, token_lists(lists@)) == Ok::<
                Scan,
                FieldFault,
            >(final(state)@) && final(state).trailer_fields <= old(state).trailer_fields + 1,
            Err(error) => scan_field(old(state)@, name@, value@, token_lists(lists@)) == Err::<
                Scan,
                FieldFault,
            >(error@),
        },
{
    if let Err(error) = check_field(name, value) {
        return Err(error);
    }
    if same_ignoring_case(name, "connection") {
        add_tokens(&mut state.nominated, value);
    } else if same_ignoring_case(name, "trailer") {
        let at: usize = state.trailer_fields;
        assert(token_lists(lists@).len() == lists@.len());
        if at < lists.len() {
            assert(token_lists(lists@)[at as int] == token_list(lists@[at as int]));
            match &lists[at] {
                Ok(tokens) => {
                    add_new(&mut state.trailers, tokens);
                },
                Err(detail) => {
                    return Err(ResponseFieldError::TokenList(detail.clone()));
                },
            }
        } else {
            return Err(
                ResponseFieldError::TokenList(
                    "HTTP response trailer list was not read".to_string(),
                ),
            );
        }
        state.trailer_fields = at + 1;
    }
    Ok(())
}

#[verifier::loop_isolation(false)]
fn scan_lines(lines: &Vec<String>, lists: &Vec<Result<Vec<String>, String>>) -> (r: Result<
    ScanState,
    ResponseFieldError,
>)
    requires
        lines@.len() > 0,
    ensures
        match r {
            Ok(state) => scan(text::texts(lines@).skip(1), token_lists(lists@)) == Ok::<
                Scan,
                FieldFault,
            >(state@),
            Err(error) => scan(text::texts(lines@).skip(1), token_lists(lists@)) == Err::<
                Scan,
                FieldFault,
            >(error@),
        },
{
    let ghost all = text::texts(lines@).skip(1);
    let ghost given = token_lists(lists@);
    let mut state = ScanState { nominated: Vec::new(), trailers: Vec::new(), trailer_fields: 0 };
    assert(state@ == (Scan { nominated: seq![], trailers: seq![], trailer_fields: 0 }));
    let mut i: usize = 1;
    while i < lines.len()
        invariant
            1 <= i <= lines@.len(),
            state.trailer_fields < i,
            scan(all.take(i - 1), given) == Ok::<Scan, FieldFault>(state@),
        decreases lines@.len() - i,
    {
        proof {
            let next = all.take(i as int);
            assert(next.drop_last() == all.take(i - 1));
            assert(next.last() == lines@[i as int]@);
        }
        if let Some((name, value)) = split_at_first(lines[i].as_str(), ':') {
            if let Err(error) = scan_one(&mut state, name.as_str(), value.as_str(), lists) {
                proof {
                    lemma_scan_prefix(all, given, i as int);
                }
                return Err(error);
            }
        }
        i += 1;
    }
    assert(all.take(i - 1) == all);
    Ok(state)
}

struct KeptState {
    headers: Vec<HttpHeader>,
    preserved: Vec<String>,
}

impl View for KeptState {
    type V = Fields;

    closed spec fn view(&self) -> Fields {
        Fields { headers: head::headers_of(self.headers@), preserved: text::texts(self.preserved@) }
    }
}

fn keep_one(
    state: &mut KeptState,
    line: &str,
    nominated: &Vec<String>,
    credentials: &CredentialFields,
) -> (r: Result<(), ResponseFieldError>)
    ensures
        match r {
            Ok(_) => keep_line(old(state)@, line@, text::texts(nominated@), *credentials) == Ok::<
                Fields,
                FieldFault,
            >(final(state)@),
            Err(error) => keep_line(old(state)@, line@, text::texts(nominated@), *credentials)
                == Err::<Fields, FieldFault>(error@),
        },
{
    if chars_of(line).len() == 0 {
        return Ok(());
    }
    let (name, value) = match split_at_first(line, ':') {
        Some(pair) => pair,
        None => {
            return Err(ResponseFieldError::MalformedField);
        },
    };
    let value = match check_field(name.as_str(), value.as_str()) {
        Ok(value) => value,
        Err(error) => {
            return Err(error);
        },
    };
    let name = to_lower(name.as_str());
    let ghost before = state@;
    if credentials.contains(name.as_str()) {
        let kept = line.to_string();
        state.preserved.push(kept);
        assert(state@.preserved == before.preserved.push(line@));
    } else if !(holds_text(nominated, name.as_str()) || is_hidden_response_field(name.as_str())) {
        let header = HttpHeader { name, value };
        let ghost model = header@;
        state.headers.push(header);
        assert(state@.headers == before.headers.push(model));
    }
    Ok(())
}

#[verifier::loop_isolation(false)]
fn keep_lines(
    lines: &Vec<String>,
    nominated: &Vec<String>,
    credentials: &CredentialFields,
) -> (r: Result<KeptState, ResponseFieldError>)
    requires
        lines@.len() > 0,
    ensures
        match r {
            Ok(state) => kept_fields(
                text::texts(lines@).skip(1),
                text::texts(nominated@),
                *credentials,
            ) == Ok::<Fields, FieldFault>(state@),
            Err(error) => kept_fields(
                text::texts(lines@).skip(1),
                text::texts(nominated@),
                *credentials,
            ) == Err::<Fields, FieldFault>(error@),
        },
{
    let ghost all = text::texts(lines@).skip(1);
    let ghost names = text::texts(nominated@);
    let mut state = KeptState { headers: Vec::new(), preserved: Vec::new() };
    assert(state@ == (Fields { headers: seq![], preserved: seq![] }));
    let mut i: usize = 1;
    while i < lines.len()
        invariant
            1 <= i <= lines@.len(),
            kept_fields(all.take(i - 1), names, *credentials) == Ok::<Fields, FieldFault>(state@),
        decreases lines@.len() - i,
    {
        proof {
            let next = all.take(i as int);
            assert(next.drop_last() == all.take(i - 1));
            assert(next.last() == lines@[i as int]@);
        }
        if let Err(error) = keep_one(&mut state, lines[i].as_str(), nominated, credentials) {
            proof {
                lemma_kept_prefix(all, names, *credentials, i as int);
            }
            return Err(error);
        }
        i += 1;
    }
    assert(all.take(i - 1) == all);
    Ok(state)
}

fn protected_trailer(
    trailers: &Vec<String>,
    nominated: &Vec<String>,
    credentials: &CredentialFields,
) -> (r: bool)
    ensures
        r == declares_protected(text::texts(trailers@), text::texts(nominated@), *credentials),
{
    let ghost all = text::texts(trailers@);
    let ghost names = text::texts(nominated@);
    let mut i: usize = 0;
    while i < trailers.len()
        invariant
            i <= trailers@.len(),
            all == text::texts(trailers@),
            names == text::texts(nominated@),
            forall|k: int|
                0 <= k < i ==> !(head::is_protected_field(#[trigger] all[k], *credentials)
                    || names.contains(all[k])),
        decreases trailers@.len() - i,
    {
        assert(all[i as int] == trailers@[i as int]@);
        if is_protected_response_field(trailers[i].as_str(), credentials) || holds_text(
            nominated,
            trailers[i].as_str(),
        ) {
            return true;
        }
        i += 1;
    }
    false
}

/// A text has at least one part between its line endings.
pub proof fn lemma_split_crlf_nonempty(s: Seq<char>)
    ensures
        text::split_crlf(s).len() > 0,
    decreases s.len(),
{
    if s.len() > 0 {
        lemma_split_crlf_nonempty(s.drop_last());
    }
}

/// The values of the `Trailer` fields among header lines.
pub open spec fn trailer_values(lines: Seq<Seq<char>>) -> Seq<Seq<char>>
    decreases lines.len(),
{
    if lines.len() == 0 {
        seq![]
    } else {
        let before = trailer_values(lines.drop_last());
        match text::split_once(lines.last(), ':') {
            Some((name, value)) => if text::lowered(name) == text::lowered("trailer"@) {
                before.push(value)
            } else {
                before
            },
            None => before,
        }
    }
}

/// Lists the values of the `Trailer` fields of a response head, in order.
pub fn trailer_field_values(header_bytes: &[u8]) -> (values: Vec<String>)
    ensures
        text::texts(values@) == trailer_values(
            text::split_crlf(bytes::utf8_lossy(header_bytes@)).skip(1),
        ),
{
    let header = utf8_text_lossy(header_bytes);
    let lines = split_crlf_parts(header.as_str());
    proof {
        lemma_split_crlf_nonempty(header@);
        assert(text::texts(lines@).len() == lines@.len());
    }
    let ghost all = text::split_crlf(header@).skip(1);
    let mut values: Vec<String> = Vec::new();
    assert(text::texts(values@) == Seq::<Seq<char>>::empty());
    let mut i: usize = 1;
    while i < lines.len()
        invariant
            1 <= i <= lines@.len(),
            all == text::texts(lines@).skip(1),
            text::texts(values@) == trailer_values(all.take(i - 1)),
        decreases lines@.len() - i,
    {
        assert(all.take(i as int).drop_last() == all.take(i - 1));
        assert(all.take(i as int).last() == lines@[i as int]@);
        if let Some((name, value)) = split_at_first(lines[i].as_str(), ':') {
            if same_ignoring_case(name.as_str(), "trailer") {
                let ghost before = text::texts(values@);
                values.push(value);
                assert(text::texts(values@) == before.push(value@));
            }
        }
        i += 1;
    }
    assert(all.take(i - 1) == all);
    values
}

/// Normalizes a response head for middleware. `trailer_lists` holds, for each
/// `Trailer` field in order, its tokens or why they could not be read.
///
/// Lossy decoding keeps ASCII syntax and control characters for validation;
/// its replacement text is neither shown to middleware nor delivered.
pub fn parse_response_head_for_middleware(
    header_bytes: &[u8],
    trailer_lists: &Vec<Result<Vec<String>, String>>,
    credentials: &CredentialFields,
) -> (r: Result<ParsedResponseHead, ResponseFieldError>)
    ensures
        match r {
            Ok(parsed) => parsed_head(
                header_bytes@,
                token_lists(trailer_lists@),
                *credentials,
            ) == Ok::<HeadModel, FieldFault>(parsed@),
            Err(error) => parsed_head(
                header_bytes@,
                token_lists(trailer_lists@),
                *credentials,
            ) == Err::<HeadModel, FieldFault>(error@),
        },
{
    let header = utf8_text_lossy(header_bytes);
    let representable = utf8_text(header_bytes).is_some();
    if parse_status_code(header.as_str()).is_none() {
        return Err(ResponseFieldError::StatusLine);
    }
    let lines = split_crlf_parts(header.as_str());
    proof {
        lemma_split_crlf_nonempty(header@);
        assert(text::texts(lines@).len() == lines@.len());
    }
    let state = match scan_lines(&lines, trailer_lists) {
        Ok(state) => state,
        Err(error) => {
            return Err(error);
        },
    };
    if protected_trailer(&state.trailers, &state.nominated, credentials) {
        return Err(ResponseFieldError::ProtectedTrailer);
    }
    let kept = match keep_lines(&lines, &state.nominated, credentials) {
        Ok(kept) => kept,
        Err(error) => {
            return Err(error);
        },
    };
    let parsed = if representable {
        ParsedResponseHead {
            representable,
            headers: kept.headers,
            preserved_credential_headers: kept.preserved,
            connection_nominated: state.nominated,
            declared_trailers: state.trailers,
        }
    } else {
        ParsedResponseHead {
            representable,
            headers: Vec::new(),
            preserved_credential_headers: Vec::new(),
            connection_nominated: state.nominated,
            declared_trailers: state.trailers,
        }
    };
    proof {
        if !representable {
            assert(parsed@.headers == Seq::<HeaderModel>::empty());
            assert(parsed@.preserved_credential_headers == Seq::<Seq<char>>::empty());
        }
    }
    Ok(parsed)
}

/// Where the first line of `raw` ends, if it does.
pub open spec fn line_end(raw: Seq<u8>) -> Option<int> {
    bytes::first_match(raw, seq![13u8, 10u8], 0)
}

/// The status line of a response head, or why there is none.
pub open spec fn status_line(raw: Seq<u8>) -> Result<Seq<char>, FieldFault> {
    match line_end(raw) {
        None => Err(FieldFault::IncompleteStatusLine),
        Some(end) => if vstd::utf8::valid_utf8(raw.take(end)) {
            Ok(vstd::utf8::decode_utf8(raw.take(end)))
        } else {
            Err(FieldFault::StatusLineEncoding)
        },
    }
}

fn find_line_end(raw: &[u8]) -> (r: Option<usize>)
    ensures
        match r {
            Some(end) => line_end(raw@) == Some(end as int) && end < raw@.len(),
            None => line_end(raw@) is None,
        },
{
    let mut at: usize = 0;
    while at < raw.len()
        invariant
            at <= raw@.len(),
            line_end(raw@) == bytes::first_match(raw@, seq![13u8, 10u8], at as int),
        decreases raw@.len() - at,
    {
        if raw.len() - at < 2 {
            return None;
        }
        let ghost here = raw@.subrange(at as int, at + 2);
        assert(here[0] == raw@[at as int] && here[1] == raw@[at + 1]);
        if raw[at] == 13 && raw[at + 1] == 10 {
            assert(here == seq![13u8, 10u8]);
            return Some(at);
        }
        assert(seq![13u8, 10u8][0] == 13 && seq![13u8, 10u8][1] == 10);
        at += 1;
    }
    None
}

/// Takes the status line of a response head.
pub fn response_status_line(header_bytes: &[u8]) -> (r: Result<String, ResponseFieldError>)
    ensures
        match r {
            Ok(line) => status_line(header_bytes@) == Ok::<Seq<char>, FieldFault>(line@),
            Err(error) => status_line(header_bytes@) == Err::<Seq<char>, FieldFault>(error@),
        },
{
    let end = match find_line_end(header_bytes) {
        Some(end) => end,
        None => {
            return Err(ResponseFieldError::IncompleteStatusLine);
        },
    };
    let line = slice(header_bytes, 0, end);
    assert(line@ == header_bytes@.take(end as int));
    match utf8_text(line.as_slice()) {
        Some(text) => Ok(text),
        None => Err(ResponseFieldError::StatusLineEncoding),
    }
}

} // verus!
