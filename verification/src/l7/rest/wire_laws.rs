//! What holds of every response head that middleware sees and of everything
//! that the relay writes.

use crate::l7::rest::head;
use crate::l7::rest::head::{CredentialFields, HeaderModel};
use crate::l7::rest::output;
use crate::l7::rest::output::{ChunkSizeError, ResponseFraming};
use crate::l7::rest::parsed_head;
use crate::numeral;
use crate::numeral::Base;
use crate::text;
use crate::text::CharClass;
use vstd::prelude::*;

verus! {

/// Whether middleware may see a field: it belongs neither to one connection
/// nor to the credentials.
pub open spec fn may_be_shown(
    header: HeaderModel,
    nominated: Seq<Seq<char>>,
    credentials: CredentialFields,
) -> bool {
    &&& !head::is_hidden_field(header.name)
    &&& !nominated.contains(header.name)
    &&& !credentials.has_name(header.name)
}

proof fn lemma_kept_may_be_shown(
    lines: Seq<Seq<char>>,
    nominated: Seq<Seq<char>>,
    credentials: CredentialFields,
)
    ensures
        parsed_head::kept_fields(lines, nominated, credentials) matches Ok(fields) ==> forall|i: int|
            0 <= i < fields.headers.len() ==> may_be_shown(
                #[trigger] fields.headers[i],
                nominated,
                credentials,
            ),
    decreases lines.len(),
{
    if lines.len() > 0 {
        lemma_kept_may_be_shown(lines.drop_last(), nominated, credentials);
        if let Ok(before) = parsed_head::kept_fields(lines.drop_last(), nominated, credentials) {
            if let Ok(fields) = parsed_head::keep_line(
                before,
                lines.last(),
                nominated,
                credentials,
            ) {
                assert forall|i: int| 0 <= i < fields.headers.len() implies may_be_shown(
                    #[trigger] fields.headers[i],
                    nominated,
                    credentials,
                ) by {
                    if i < before.headers.len() {
                        assert(fields.headers[i] == before.headers[i]);
                    }
                }
            }
        }
    }
}

/// Middleware sees no field of one connection, no field that `Connection`
/// nominates, and no credential.
pub proof fn middleware_sees_no_private_field(
    raw: Seq<u8>,
    lists: Seq<Result<Seq<Seq<char>>, Seq<char>>>,
    credentials: CredentialFields,
)
    ensures
        parsed_head::parsed_head(raw, lists, credentials) matches Ok(shown) ==> forall|i: int|
            0 <= i < shown.headers.len() ==> may_be_shown(
                #[trigger] shown.headers[i],
                shown.connection_nominated,
                credentials,
            ),
{
    let lines = text::split_crlf(crate::bytes::utf8_lossy(raw)).skip(1);
    if let Ok(found) = parsed_head::scan(lines, lists) {
        lemma_kept_may_be_shown(lines, found.nominated, credentials);
    }
}

/// Whether a header line carries a credential.
pub open spec fn is_credential_line(line: Seq<char>, credentials: CredentialFields) -> bool {
    text::split_once(line, ':') matches Some((name, _)) && credentials.has_name(
        text::lowered(name),
    )
}

proof fn lemma_credential_line_kept(
    lines: Seq<Seq<char>>,
    nominated: Seq<Seq<char>>,
    credentials: CredentialFields,
    j: int,
)
    requires
        0 <= j < lines.len(),
        lines[j].len() > 0,
        is_credential_line(lines[j], credentials),
    ensures
        parsed_head::kept_fields(lines, nominated, credentials) matches Ok(fields)
            ==> fields.preserved.contains(lines[j]),
    decreases lines.len(),
{
    if let Ok(before) = parsed_head::kept_fields(lines.drop_last(), nominated, credentials) {
        if let Ok(fields) = parsed_head::keep_line(before, lines.last(), nominated, credentials) {
            if j < lines.len() - 1 {
                lemma_credential_line_kept(lines.drop_last(), nominated, credentials, j);
                assert(lines.drop_last()[j] == lines[j]);
                let k = choose|k: int| 0 <= k < before.preserved.len() && before.preserved[k] == lines[j];
                assert(fields.preserved[k] == lines[j]);
            } else {
                assert(fields.preserved[before.preserved.len() as int] == lines[j]);
            }
        }
    }
}

proof fn lemma_raw_line_at(list: Seq<Seq<char>>, i: int) -> (at: int)
    requires
        0 <= i < list.len(),
    ensures
        0 <= at,
        at + (list[i] + output::crlf()).len() <= output::raw_lines(list).len(),
        output::raw_lines(list).subrange(at, at + (list[i] + output::crlf()).len() as int)
            == list[i] + output::crlf(),
    decreases list.len(),
{
    let before = output::raw_lines(list.drop_last());
    let line = list[i] + output::crlf();
    if i < list.len() - 1 {
        assert(list.drop_last()[i] == list[i]);
        let at = lemma_raw_line_at(list.drop_last(), i);
        let all = output::raw_lines(list);
        assert(all.subrange(at, at + line.len()) == before.subrange(at, at + line.len()));
        at
    } else {
        let at = before.len() as int;
        assert(output::raw_lines(list).subrange(at, at + line.len()) == line);
        at
    }
}

/// A credential line of a response reaches the client as it came, whatever
/// middleware made of the rest of the head, unless the head is refused or is
/// no valid text.
pub proof fn credential_line_is_delivered(
    raw: Seq<u8>,
    lists: Seq<Result<Seq<Seq<char>>, Seq<char>>>,
    credentials: CredentialFields,
    j: int,
    status_line: Seq<char>,
    headers: Seq<HeaderModel>,
    framing: ResponseFraming,
    connection_close: bool,
    trailers: Seq<Seq<char>>,
)
    requires
        ({
            let lines = text::split_crlf(crate::bytes::utf8_lossy(raw)).skip(1);
            0 <= j < lines.len() && lines[j].len() > 0 && is_credential_line(lines[j], credentials)
        }),
    ensures
        parsed_head::parsed_head(raw, lists, credentials) matches Ok(shown) ==> {
            let line = text::split_crlf(crate::bytes::utf8_lossy(raw)).skip(1)[j] + output::crlf();
            let written = output::head_text(
                status_line,
                headers,
                shown.preserved_credential_headers,
                framing,
                connection_close,
                trailers,
            );
            shown.representable ==> exists|at: int|
                0 <= at <= written.len() - line.len() && #[trigger] written.subrange(
                    at,
                    at + line.len(),
                ) == line
        },
{
    let lines = text::split_crlf(crate::bytes::utf8_lossy(raw)).skip(1);
    let line = lines[j] + output::crlf();
    if let Ok(shown) = parsed_head::parsed_head(raw, lists, credentials) {
        if shown.representable {
            if let Ok(found) = parsed_head::scan(lines, lists) {
                lemma_credential_line_kept(lines, found.nominated, credentials, j);
                let preserved = shown.preserved_credential_headers;
                let i = choose|i: int| 0 <= i < preserved.len() && preserved[i] == lines[j];
                let inner = lemma_raw_line_at(preserved, i);
                let start = status_line + output::crlf() + output::header_lines(headers);
                let at = start.len() + inner;
                let written = output::head_text(
                    status_line,
                    headers,
                    preserved,
                    framing,
                    connection_close,
                    trailers,
                );
                assert(written.subrange(at, at + line.len())
                    == output::raw_lines(preserved).subrange(inner, inner + line.len()));
            }
        }
    }
}

/// A head that declares a trailer which may not come as one is refused.
pub proof fn declared_trailers_are_not_protected(
    raw: Seq<u8>,
    lists: Seq<Result<Seq<Seq<char>>, Seq<char>>>,
    credentials: CredentialFields,
)
    ensures
        parsed_head::parsed_head(raw, lists, credentials) matches Ok(shown) ==> forall|i: int|
            0 <= i < shown.declared_trailers.len() ==> {
                &&& !head::is_protected_field(#[trigger] shown.declared_trailers[i], credentials)
                &&& !shown.connection_nominated.contains(shown.declared_trailers[i])
            },
{
}

/// Whether a list of texts is in order, with nothing twice.
pub open spec fn in_order(list: Seq<Seq<char>>) -> bool {
    forall|i: int, j: int|
        0 <= i < j < list.len() ==> text::precedes(#[trigger] list[i], #[trigger] list[j])
}

proof fn lemma_precedes_total(a: Seq<char>, b: Seq<char>)
    ensures
        a == b || text::precedes(a, b) || text::precedes(b, a),
    decreases a.len(),
{
    if a.len() > 0 && b.len() > 0 && a[0] == b[0] {
        lemma_precedes_total(a.skip(1), b.skip(1));
        if a.skip(1) == b.skip(1) {
            assert(a == seq![a[0]] + a.skip(1));
            assert(b == seq![b[0]] + b.skip(1));
        }
    } else if a.len() == 0 && b.len() == 0 {
        assert(a == b);
    }
}

proof fn lemma_with_name_in_order(list: Seq<Seq<char>>, name: Seq<char>)
    requires
        in_order(list),
    ensures
        in_order(parsed_head::with_name(list, name)),
        forall|i: int|
            0 <= i < parsed_head::with_name(list, name).len() ==> #[trigger] parsed_head::with_name(
                list,
                name,
            )[i] == name || list.contains(parsed_head::with_name(list, name)[i]),
    decreases list.len(),
{
    let after = parsed_head::with_name(list, name);
    if list.len() == 0 {
    } else if list[0] == name {
        assert forall|i: int| 0 <= i < after.len() implies after[i] == name || list.contains(
            after[i],
        ) by {
            assert(list[i] == after[i]);
        }
    } else if text::precedes(name, list[0]) {
        assert forall|i: int, j: int| 0 <= i < j < after.len() implies text::precedes(
            #[trigger] after[i],
            #[trigger] after[j],
        ) by {
            assert(after[j] == list[j - 1]);
            if i == 0 {
                if j > 1 {
                    assert(text::precedes(list[0], list[j - 1]));
                    text::lemma_precedes_transitive(name, list[0], list[j - 1]);
                }
            } else {
                assert(after[i] == list[i - 1]);
            }
        }
        assert forall|i: int| 0 <= i < after.len() implies after[i] == name || list.contains(
            after[i],
        ) by {
            if i > 0 {
                assert(after[i] == list[i - 1]);
            }
        }
    } else {
        let rest = list.skip(1);
        assert forall|i: int, j: int| 0 <= i < j < rest.len() implies text::precedes(
            #[trigger] rest[i],
            #[trigger] rest[j],
        ) by {
            assert(rest[i] == list[i + 1]);
            assert(rest[j] == list[j + 1]);
        }
        lemma_with_name_in_order(rest, name);
        lemma_precedes_total(name, list[0]);
        let tail = parsed_head::with_name(rest, name);
        assert forall|i: int| 0 <= i < tail.len() implies list.contains(#[trigger] tail[i]) || tail[i]
            == name by {
            if tail[i] != name {
                let k = choose|k: int| 0 <= k < rest.len() && rest[k] == tail[i];
                assert(list[k + 1] == tail[i]);
            }
        }
        assert forall|i: int| 0 <= i < tail.len() implies text::precedes(
            list[0],
            #[trigger] tail[i],
        ) by {
            if tail[i] != name {
                let k = choose|k: int| 0 <= k < rest.len() && rest[k] == tail[i];
                assert(list[k + 1] == tail[i]);
                assert(text::precedes(list[0], list[k + 1]));
            }
        }
        assert forall|i: int, j: int| 0 <= i < j < after.len() implies text::precedes(
            #[trigger] after[i],
            #[trigger] after[j],
        ) by {
            assert(after[j] == tail[j - 1]);
            if i > 0 {
                assert(after[i] == tail[i - 1]);
            }
        }
        assert forall|i: int| 0 <= i < after.len() implies after[i] == name || list.contains(
            after[i],
        ) by {
            if i == 0 {
                assert(after[0] == list[0]);
            } else {
                assert(after[i] == tail[i - 1]);
            }
        }
    }
}

proof fn lemma_with_tokens_in_order(list: Seq<Seq<char>>, parts: Seq<Seq<char>>)
    requires
        in_order(list),
    ensures
        in_order(parsed_head::with_tokens(list, parts)),
    decreases parts.len(),
{
    if parts.len() > 0 {
        lemma_with_tokens_in_order(list, parts.drop_last());
        let token = text::trim(parts.last(), CharClass::WhiteSpace);
        lemma_with_name_in_order(
            parsed_head::with_tokens(list, parts.drop_last()),
            text::lowered(token),
        );
    }
}

proof fn lemma_scan_in_order(
    lines: Seq<Seq<char>>,
    lists: Seq<Result<Seq<Seq<char>>, Seq<char>>>,
)
    ensures
        parsed_head::scan(lines, lists) matches Ok(found) ==> in_order(found.nominated),
    decreases lines.len(),
{
    if lines.len() > 0 {
        lemma_scan_in_order(lines.drop_last(), lists);
        if let Ok(before) = parsed_head::scan(lines.drop_last(), lists) {
            if let Some((name, value)) = text::split_once(lines.last(), ':') {
                lemma_with_tokens_in_order(before.nominated, text::split(value, ','));
            }
        }
    }
}

/// The names that `Connection` fields nominate are in order, with none twice.
pub proof fn nominated_names_are_in_order(
    raw: Seq<u8>,
    lists: Seq<Result<Seq<Seq<char>>, Seq<char>>>,
    credentials: CredentialFields,
)
    ensures
        parsed_head::parsed_head(raw, lists, credentials) matches Ok(shown) ==> in_order(
            shown.connection_nominated,
        ),
{
    lemma_scan_in_order(text::split_crlf(crate::bytes::utf8_lossy(raw)).skip(1), lists);
}

proof fn lemma_lines_without_length(headers: Seq<HeaderModel>)
    ensures
        output::header_lines(headers) == output::header_lines(
            output::without_names(headers, seq![text::lowered("content-length"@)]),
        ),
    decreases headers.len(),
{
    let names = seq![text::lowered("content-length"@)];
    if headers.len() > 0 {
        lemma_lines_without_length(headers.drop_last());
        let before = output::without_names(headers.drop_last(), names);
        let lower = text::lowered(headers.last().name);
        if lower == names[0] {
            assert(names.contains(lower));
        } else {
            assert(!names.contains(lower));
            assert(before.push(headers.last()).drop_last() == before);
        }
    }
}

/// `Content-Length` is read-only for middleware: whatever fields of that name
/// there are, the head is the one without them, framed by the relay alone.
pub proof fn content_length_fields_are_not_written(
    status_line: Seq<char>,
    headers: Seq<HeaderModel>,
    preserved: Seq<Seq<char>>,
    framing: ResponseFraming,
    connection_close: bool,
    trailers: Seq<Seq<char>>,
)
    ensures
        output::head_text(status_line, headers, preserved, framing, connection_close, trailers)
            == output::head_text(
            status_line,
            output::without_names(headers, seq![text::lowered("content-length"@)]),
            preserved,
            framing,
            connection_close,
            trailers,
        ),
{
    lemma_lines_without_length(headers);
}

/// Whether a character is an upper-case hexadecimal digit.
pub open spec fn is_hex_digit(c: char) -> bool {
    ('0' <= c && c <= '9') || ('A' <= c && c <= 'F')
}

proof fn lemma_hex_digits(n: nat)
    ensures
        numeral::numeral(n, Base::Hexadecimal).len() > 0,
        forall|i: int|
            0 <= i < numeral::numeral(n, Base::Hexadecimal).len() ==> is_hex_digit(
                #[trigger] numeral::numeral(n, Base::Hexadecimal)[i],
            ),
    decreases n,
{
    assert(forall|v: int| 0 <= v < 16 ==> is_hex_digit(#[trigger] numeral::digit(v)));
    if n >= 16 {
        lemma_hex_digits(n / 16);
        let high = numeral::numeral(n / 16, Base::Hexadecimal);
        let all = numeral::numeral(n, Base::Hexadecimal);
        assert forall|i: int| 0 <= i < all.len() implies is_hex_digit(#[trigger] all[i]) by {
            if i < high.len() {
                assert(all[i] == high[i]);
            }
        }
    }
}

/// A size line reads back as the size that was written, and holds digits alone.
pub proof fn size_line_reads_back(n: nat)
    requires
        n <= usize::MAX,
    ensures
        output::chunk_size_of(output::utf8(numeral::numeral(n, Base::Hexadecimal))) == Ok::<
            nat,
            ChunkSizeError,
        >(n),
        forall|i: int|
            0 <= i < numeral::numeral(n, Base::Hexadecimal).len() ==> is_hex_digit(
                #[trigger] numeral::numeral(n, Base::Hexadecimal)[i],
            ),
{
    let line = numeral::numeral(n, Base::Hexadecimal);
    lemma_hex_digits(n);
    vstd::utf8::encode_utf8_valid_utf8(line);
    vstd::utf8::encode_utf8_decode_utf8(line);
    text::lemma_find(line, ';');
    assert(text::find(line, ';') == line.len());
    assert(line.take(line.len() as int) == line);
    assert(is_hex_digit(line[0]));
    assert(is_hex_digit(line.last()));
    assert(text::trim(line, CharClass::WhiteSpace) == line);
    numeral::number_reads_numeral(n, Base::Hexadecimal, usize::MAX as nat);
}

/// The size line of every chunk that is written reads back as the length of
/// the payload.
pub proof fn chunk_size_reads_back(payload: Seq<u8>)
    requires
        0 < payload.len() <= usize::MAX,
    ensures
        ({
            let line = numeral::numeral(payload.len(), Base::Hexadecimal);
            &&& output::chunk(payload) == output::utf8(line + output::crlf()) + payload
                + output::utf8(output::crlf())
            &&& output::chunk_size_of(output::utf8(line)) == Ok::<nat, ChunkSizeError>(
                payload.len(),
            )
        }),
{
    size_line_reads_back(payload.len());
}

} // verus!
