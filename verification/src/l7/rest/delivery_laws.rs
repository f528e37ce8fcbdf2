//! What a client reads of everything that is delivered.

use crate::bytes;
use crate::l7::provider::BodyLength;
use crate::l7::rest::body;
use crate::l7::rest::head;
use crate::l7::rest::head::{HeaderModel, HttpHeader};
use crate::l7::rest::middleware;
use crate::l7::rest::middleware::{SessionFinish, SessionHead, UnitDeliveryModel};
use crate::l7::rest::output;
use crate::l7::rest::output::{ChunkSizeError, ResponseFraming};
use crate::l7::rest::wire_laws;
use crate::numeral;
use crate::numeral::Base;
use crate::opa::diagnostics;
use crate::text;
use crate::text_laws;
use vstd::prelude::*;

verus! {

/// The lines of fields that are written: name and value of each, but for the
/// length, which the relay writes itself.
pub open spec fn field_lines(headers: Seq<HeaderModel>) -> Seq<Seq<char>> {
    headers.filter(|h: HeaderModel| text::lowered(h.name) != "content-length"@).map_values(
        |h: HeaderModel| h.name + ": "@ + h.value,
    )
}

/// The line by which a body is framed: its length, or that it comes in chunks,
/// or none.
pub open spec fn framing_lines(framing: ResponseFraming) -> Seq<Seq<char>> {
    match framing {
        ResponseFraming::ContentLength(n) => seq![
            "Content-Length: "@ + numeral::numeral(n as nat, Base::Decimal),
        ],
        ResponseFraming::Preserve(BodyLength::ContentLength(n)) => seq![
            "Content-Length: "@ + numeral::numeral(n as nat, Base::Decimal),
        ],
        ResponseFraming::Chunked => seq!["Transfer-Encoding: chunked"@],
        ResponseFraming::Preserve(BodyLength::Chunked) => seq!["Transfer-Encoding: chunked"@],
        ResponseFraming::Preserve(BodyLength::Absent) => Seq::empty(),
    }
}

/// The lines of a head without its blank line: the status line, the fields, the
/// credential lines as they came, the framing, the declared trailers, and that
/// the connection closes.
pub open spec fn lines_of_head(
    status_line: Seq<char>,
    headers: Seq<HeaderModel>,
    preserved: Seq<Seq<char>>,
    framing: ResponseFraming,
    connection_close: bool,
    trailers: Seq<Seq<char>>,
) -> Seq<Seq<char>> {
    seq![status_line] + field_lines(headers) + preserved + framing_lines(framing)
        + if trailers.len() > 0 {
        seq!["Trailer: "@ + text::join(trailers, ", "@)]
    } else {
        Seq::empty()
    } + if connection_close {
        seq!["Connection: close"@]
    } else {
        Seq::empty()
    }
}

proof fn lemma_crlf()
    ensures
        output::crlf() == seq!['\r', '\n'],
        "Transfer-Encoding: chunked\r\n"@ == "Transfer-Encoding: chunked"@ + seq!['\r', '\n'],
        "Connection: close\r\n"@ == "Connection: close"@ + seq!['\r', '\n'],
        text::lowered("content-length"@) == "content-length"@,
{
    reveal_strlit("\r\n");
    reveal_strlit("Transfer-Encoding: chunked\r\n");
    reveal_strlit("Transfer-Encoding: chunked");
    reveal_strlit("Connection: close\r\n");
    reveal_strlit("Connection: close");
    reveal_strlit("content-length");
    assert(output::crlf() =~= seq!['\r', '\n']);
    assert("Transfer-Encoding: chunked\r\n"@ =~= "Transfer-Encoding: chunked"@ + seq!['\r', '\n']);
    assert("Connection: close\r\n"@ =~= "Connection: close"@ + seq!['\r', '\n']);
    let name = "content-length"@;
    assert forall|i: int| 0 <= i < name.len() implies #[trigger] text::lowered(name)[i] == name[i] by {
        assert(name[i] == '-' || ('a' <= name[i] && name[i] <= 'z'));
    }
    assert(text::lowered(name) =~= name);
}

proof fn lemma_field_lines(headers: Seq<HeaderModel>)
    ensures
        output::header_lines(headers) == text_laws::ended(field_lines(headers)),
    decreases headers.len(),
{
    lemma_crlf();
    reveal(Seq::filter);
    let keep = |h: HeaderModel| text::lowered(h.name) != "content-length"@;
    let line = |h: HeaderModel| h.name + ": "@ + h.value;
    if headers.len() > 0 {
        lemma_field_lines(headers.drop_last());
        let before = headers.drop_last().filter(keep);
        if keep(headers.last()) {
            assert(headers.filter(keep) == before.push(headers.last()));
            let lines = field_lines(headers);
            assert(lines == field_lines(headers.drop_last()).push(line(headers.last())));
            assert(lines.drop_last() == field_lines(headers.drop_last()));
            assert(lines.last() == line(headers.last()));
            let earlier = output::header_lines(headers.drop_last());
            assert(earlier + headers.last().name + ": "@ + headers.last().value + output::crlf()
                == earlier + line(headers.last()) + seq!['\r', '\n']);
        } else {
            assert(field_lines(headers) == field_lines(headers.drop_last()));
        }
    } else {
        assert(headers.filter(keep).len() == 0);
        assert(field_lines(headers).len() == 0);
        assert(output::header_lines(headers) == text_laws::ended(field_lines(headers)));
    }
}

proof fn lemma_raw_lines(lines: Seq<Seq<char>>)
    ensures
        output::raw_lines(lines) == text_laws::ended(lines),
    decreases lines.len(),
{
    lemma_crlf();
    if lines.len() > 0 {
        lemma_raw_lines(lines.drop_last());
    }
}

proof fn lemma_one_line(line: Seq<char>)
    ensures
        text_laws::ended(seq![line]) == line + seq!['\r', '\n'],
        text_laws::ended(Seq::empty()) == Seq::<char>::empty(),
{
    assert(seq![line].drop_last() == Seq::<Seq<char>>::empty());
    assert(text_laws::ended(Seq::<Seq<char>>::empty()) == Seq::<char>::empty());
    assert(Seq::<char>::empty() + line + seq!['\r', '\n'] == line + seq!['\r', '\n']);
}

/// A head is written as its lines, each with its line ending, and a blank line.
pub proof fn head_is_its_lines(
    status_line: Seq<char>,
    headers: Seq<HeaderModel>,
    preserved: Seq<Seq<char>>,
    framing: ResponseFraming,
    connection_close: bool,
    trailers: Seq<Seq<char>>,
)
    ensures
        output::head_text(status_line, headers, preserved, framing, connection_close, trailers)
            == text_laws::ended(
            lines_of_head(status_line, headers, preserved, framing, connection_close, trailers).push(
                Seq::empty(),
            ),
        ),
{
    lemma_crlf();
    lemma_field_lines(headers);
    lemma_raw_lines(preserved);
    let status = seq![status_line];
    let fields = field_lines(headers);
    let frame = framing_lines(framing);
    let declared = if trailers.len() > 0 {
        seq!["Trailer: "@ + text::join(trailers, ", "@)]
    } else {
        Seq::empty()
    };
    let closing = if connection_close {
        seq!["Connection: close"@]
    } else {
        Seq::empty()
    };
    lemma_one_line(status_line);
    assert(text_laws::ended(frame) == output::framing_line(framing)) by {
        match framing {
            ResponseFraming::Preserve(BodyLength::ContentLength(n))
            | ResponseFraming::ContentLength(n) => {
                lemma_one_line("Content-Length: "@ + numeral::numeral(n as nat, Base::Decimal));
            },
            _ => {
                lemma_one_line("Transfer-Encoding: chunked"@);
            },
        }
    }
    assert(text_laws::ended(declared) == output::trailer_line(trailers)) by {
        lemma_one_line("Trailer: "@ + text::join(trailers, ", "@));
    }
    assert(text_laws::ended(closing) == output::close_line(connection_close)) by {
        lemma_one_line("Connection: close"@);
    }
    lemma_one_line(Seq::empty());
    let lines = lines_of_head(status_line, headers, preserved, framing, connection_close, trailers);
    text_laws::ended_lines_follow(status, fields);
    text_laws::ended_lines_follow(status + fields, preserved);
    text_laws::ended_lines_follow(status + fields + preserved, frame);
    text_laws::ended_lines_follow(status + fields + preserved + frame, declared);
    text_laws::ended_lines_follow(status + fields + preserved + frame + declared, closing);
    text_laws::ended_lines_follow(lines, seq![Seq::<char>::empty()]);
    assert(lines + seq![Seq::<char>::empty()] == lines.push(Seq::empty()));
    assert(Seq::<char>::empty() + seq!['\r', '\n'] == output::crlf());
}

/// Read line by line, a head gives back the status line, the fields, the
/// credential lines, the framing, the declared trailers and whether the
/// connection closes, in this order, and ends in a blank line.
pub proof fn head_reads_back(
    status_line: Seq<char>,
    headers: Seq<HeaderModel>,
    preserved: Seq<Seq<char>>,
    framing: ResponseFraming,
    connection_close: bool,
    trailers: Seq<Seq<char>>,
)
    requires
        ({
            let lines = lines_of_head(
                status_line,
                headers,
                preserved,
                framing,
                connection_close,
                trailers,
            );
            forall|i: int| 0 <= i < lines.len() ==> text_laws::is_one_line(#[trigger] lines[i])
        }),
    ensures
        text::split_crlf(
            output::head_text(status_line, headers, preserved, framing, connection_close, trailers),
        ) == lines_of_head(status_line, headers, preserved, framing, connection_close, trailers)
            + seq![Seq::<char>::empty(), Seq::<char>::empty()],
{
    head_is_its_lines(status_line, headers, preserved, framing, connection_close, trailers);
    let lines = lines_of_head(status_line, headers, preserved, framing, connection_close, trailers);
    let all = lines.push(Seq::empty());
    assert forall|i: int| 0 <= i < all.len() implies text_laws::is_one_line(#[trigger] all[i]) by {
        if i < lines.len() {
            assert(all[i] == lines[i]);
        }
    }
    text_laws::ended_lines_are_split(all);
    assert(all.push(Seq::empty()) == lines + seq![Seq::<char>::empty(), Seq::<char>::empty()]);
}

/// Whether bytes end in a blank line.
pub open spec fn ends_in_blank_line(head: Seq<u8>) -> bool {
    exists|front: Seq<u8>| #[trigger] (front + bytes::blank_line()) == head
}

proof fn lemma_ascii_ending()
    ensures
        output::utf8(seq!['\r', '\n']) == seq![13u8, 10u8],
        output::utf8(seq!['\r', '\n', '\r', '\n']) == seq![13u8, 10u8, 13u8, 10u8],
{
    let one = seq!['\r', '\n'];
    let two = seq!['\r', '\n', '\r', '\n'];
    assert(vstd::utf8::is_ascii_chars(one));
    assert(vstd::utf8::is_ascii_chars(two));
    vstd::utf8::is_ascii_chars_encode_utf8(one);
    vstd::utf8::is_ascii_chars_encode_utf8(two);
    assert(output::utf8(one) =~= seq![13u8, 10u8]);
    assert(output::utf8(two) =~= seq![13u8, 10u8, 13u8, 10u8]);
}

proof fn lemma_head_ends(lines: Seq<Seq<char>>)
    requires
        lines.len() > 0,
    ensures
        ends_in_blank_line(output::utf8(text_laws::ended(lines.push(Seq::empty())))),
{
    let all = lines.push(Seq::empty());
    assert(all.drop_last() == lines);
    let front = text_laws::ended(lines.drop_last()) + lines.last();
    let two = seq!['\r', '\n', '\r', '\n'];
    assert(text_laws::ended(lines) == front + seq!['\r', '\n']);
    assert(text_laws::ended(all) == text_laws::ended(lines) + Seq::<char>::empty() + seq![
        '\r',
        '\n',
    ]);
    assert(text_laws::ended(all) =~= front + two);
    diagnostics::lemma_encode_add(front, two);
    lemma_ascii_ending();
    assert(output::utf8(front) + bytes::blank_line() == output::utf8(text_laws::ended(all)));
}

/// The bytes of units, one after the other.
pub open spec fn bytes_of_units(units: Seq<Vec<u8>>) -> Seq<u8> {
    units.map_values(|unit: Vec<u8>| unit@).flatten()
}

proof fn lemma_flat(units: Seq<Seq<u8>>)
    ensures
        body::concat(units) == units.flatten(),
        middleware::encoded(units, false) == units.flatten(),
    decreases units.len(),
{
    units.lemma_flatten_and_flatten_alt_are_equivalent();
    if units.len() > 0 {
        lemma_flat(units.drop_last());
        units.drop_last().lemma_flatten_and_flatten_alt_are_equivalent();
    }
}

proof fn lemma_kept(headers: Seq<HeaderModel>, names: Seq<Seq<char>>)
    ensures
        output::without_names(headers, names) == headers.filter(
            |h: HeaderModel| !names.contains(text::lowered(h.name)),
        ),
    decreases headers.len(),
{
    reveal(Seq::filter);
    if headers.len() > 0 {
        lemma_kept(headers.drop_last(), names);
    }
}

/// The fields that are delivered: those after preflight, without the integrity
/// fields that a changed body makes stale.
pub open spec fn delivered_fields(
    session: SessionHead,
    strip: bool,
    stale_names: Seq<Seq<char>>,
) -> Seq<HeaderModel> {
    let all = session.headers@.map_values(
        |h: HttpHeader| HeaderModel { name: h.name@, value: h.value@ },
    );
    if strip {
        all.filter(|h: HeaderModel| !stale_names.contains(text::lowered(h.name)))
    } else {
        all
    }
}

proof fn lemma_delivered(session: SessionHead, strip: bool, stale_names: Seq<Seq<char>>)
    ensures
        middleware::final_headers(session, strip, stale_names) == delivered_fields(
            session,
            strip,
            stale_names,
        ),
{
    lemma_kept(head::headers_of(session.headers@), stale_names);
    assert(head::headers_of(session.headers@) =~= session.headers@.map_values(
        |h: HttpHeader| HeaderModel { name: h.name@, value: h.value@ },
    ));
}

/// A whole body that is framed by its length is written as a head that ends in a
/// blank line, followed by exactly as many bytes as the head announces: the
/// released body units, one after the other.
pub proof fn announced_length_is_that_of_the_body(
    session: SessionHead,
    finish: SessionFinish,
    supports_chunked: bool,
    server_wants_close: bool,
    stale_names: Seq<Seq<char>>,
)
    requires
        bytes_of_units(finish.body_units@).len() <= u64::MAX,
        finish.trailers@.len() == 0 || !supports_chunked,
    ensures
        ({
            let body = bytes_of_units(finish.body_units@);
            let head = output::utf8(
                text_laws::ended(
                    lines_of_head(
                        session.status_line@,
                        delivered_fields(
                            session,
                            finish.strip_stale_integrity_headers,
                            stale_names,
                        ),
                        text::texts(session.preserved_credential_headers@),
                        ResponseFraming::ContentLength(body.len() as u64),
                        server_wants_close,
                        Seq::empty(),
                    ).push(Seq::empty()),
                ),
            );
            &&& middleware::whole_output(
                session,
                finish,
                supports_chunked,
                server_wants_close,
                stale_names,
            ) == head + body
            &&& ends_in_blank_line(head)
        }),
{
    let units = body::contents(finish.body_units@);
    assert(units == finish.body_units@.map_values(|unit: Vec<u8>| unit@));
    lemma_flat(units);
    lemma_delivered(session, finish.strip_stale_integrity_headers, stale_names);
    let fields = delivered_fields(session, finish.strip_stale_integrity_headers, stale_names);
    let preserved = text::texts(session.preserved_credential_headers@);
    let framing = ResponseFraming::ContentLength(units.flatten().len() as u64);
    head_is_its_lines(
        session.status_line@,
        fields,
        preserved,
        framing,
        server_wants_close,
        Seq::empty(),
    );
    let lines = lines_of_head(
        session.status_line@,
        fields,
        preserved,
        framing,
        server_wants_close,
        Seq::empty(),
    );
    assert(lines[0] == session.status_line@);
    lemma_head_ends(lines);
    let names = middleware::names_of(head::headers_of(finish.trailers@));
    if supports_chunked {
        assert(names =~= Seq::<Seq<char>>::empty());
    }
}

/// What a client reads of a body in chunks: the payload up to the last chunk, and
/// what follows the line of the last chunk.
pub open spec fn dechunked(wire: Seq<u8>) -> Option<(Seq<u8>, Seq<u8>)>
    decreases wire.len(),
{
    match bytes::first_match(wire, seq![13u8, 10u8], 0) {
        None => None,
        Some(at) => if !(0 <= at && at + 2 <= wire.len()) {
            None
        } else {
            match output::chunk_size_of(wire.take(at)) {
                Err(_) => None,
                Ok(n) => if n == 0 {
                    Some((Seq::empty(), wire.skip(at + 2)))
                } else if at + 2 + n + 2 <= wire.len() && wire.subrange(
                    at + 2 + n,
                    at + 4 + n,
                ) == seq![13u8, 10u8] {
                    match dechunked(wire.skip(at + 4 + n)) {
                        Some((payload, rest)) => Some(
                            (wire.subrange(at + 2, at + 2 + n) + payload, rest),
                        ),
                        None => None,
                    }
                } else {
                    None
                },
            }
        },
    }
}

proof fn lemma_size_line(n: nat, rest: Seq<u8>)
    requires
        n <= usize::MAX,
    ensures
        ({
            let line = output::utf8(numeral::numeral(n, Base::Hexadecimal));
            let wire = line + seq![13u8, 10u8] + rest;
            &&& bytes::first_match(wire, seq![13u8, 10u8], 0) == Some(line.len() as int)
            &&& wire.take(line.len() as int) == line
            &&& output::chunk_size_of(line) == Ok::<nat, ChunkSizeError>(n)
        }),
{
    let digits = numeral::numeral(n, Base::Hexadecimal);
    let line = output::utf8(digits);
    let wire = line + seq![13u8, 10u8] + rest;
    wire_laws::size_line_reads_back(n);
    assert(vstd::utf8::is_ascii_chars(digits)) by {
        assert forall|i: int| 0 <= i < digits.len() implies '\0' <= #[trigger] digits[i]
            && digits[i] <= '\u{7f}' by {
            assert(wire_laws::is_hex_digit(digits[i]));
        }
    }
    vstd::utf8::is_ascii_chars_encode_utf8(digits);
    let at = line.len() as int;
    assert(wire.subrange(at, at + 2) =~= seq![13u8, 10u8]);
    assert(bytes::matches_at(wire, seq![13u8, 10u8], at));
    bytes::lemma_first_match(wire, seq![13u8, 10u8], 0);
    if let Some(found) = bytes::first_match(wire, seq![13u8, 10u8], 0) {
        if found < at {
            assert(wire.subrange(found, found + 2)[0] == seq![13u8, 10u8][0]);
            assert(wire[found] == line[found]);
            assert(wire_laws::is_hex_digit(digits[found]));
            assert(digits[found] as u8 == line[found]);
        }
        if at < found {
            assert(!bytes::matches_at(wire, seq![13u8, 10u8], at));
        }
    }
    assert(wire.take(at) =~= line);
}

proof fn lemma_encoded_front(units: Seq<Seq<u8>>)
    requires
        units.len() > 0,
    ensures
        middleware::encoded(units, true) == output::chunk(units[0]) + middleware::encoded(
            units.skip(1),
            true,
        ),
    decreases units.len(),
{
    if units.len() == 1 {
        assert(units.drop_last() == Seq::<Seq<u8>>::empty());
        assert(units.skip(1) == Seq::<Seq<u8>>::empty());
        assert(middleware::encoded(Seq::<Seq<u8>>::empty(), true) == Seq::<u8>::empty());
        assert(Seq::<u8>::empty() + output::chunk(units.last()) == output::chunk(units[0])
            + Seq::<u8>::empty());
    } else {
        let before = units.drop_last();
        lemma_encoded_front(before);
        assert(before[0] == units[0]);
        assert(before.skip(1) == units.skip(1).drop_last());
        assert(units.skip(1).last() == units.last());
        assert((output::chunk(units[0]) + middleware::encoded(before.skip(1), true))
            + output::chunk(units.last()) == output::chunk(units[0]) + (middleware::encoded(
            before.skip(1),
            true,
        ) + output::chunk(units.last())));
    }
}

proof fn lemma_last_chunk(rest: Seq<u8>)
    ensures
        dechunked(output::utf8("0\r\n"@) + rest) == Some((Seq::<u8>::empty(), rest)),
{
    reveal_strlit("0\r\n");
    let zero = numeral::numeral(0, Base::Hexadecimal);
    assert(zero =~= seq!['0']);
    assert("0\r\n"@ =~= zero + seq!['\r', '\n']);
    diagnostics::lemma_encode_add(zero, seq!['\r', '\n']);
    lemma_ascii_ending();
    lemma_size_line(0, rest);
    let line = output::utf8(zero);
    let wire = output::utf8("0\r\n"@) + rest;
    assert(wire =~= line + seq![13u8, 10u8] + rest);
    assert(wire.skip((line.len() + 2) as int) =~= rest);
}

proof fn lemma_first_chunk(payload: Seq<u8>, behind: Seq<u8>)
    requires
        0 < payload.len() <= usize::MAX,
    ensures
        dechunked(output::chunk(payload) + behind) == match dechunked(behind) {
            Some((more, rest)) => Some((payload + more, rest)),
            None => None::<(Seq<u8>, Seq<u8>)>,
        },
{
    let n = payload.len();
    let digits = numeral::numeral(n, Base::Hexadecimal);
    lemma_crlf();
    lemma_ascii_ending();
    diagnostics::lemma_encode_add(digits, seq!['\r', '\n']);
    let line = output::utf8(digits);
    let tail = payload + seq![13u8, 10u8] + behind;
    lemma_size_line(n, tail);
    let wire = output::chunk(payload) + behind;
    assert(wire =~= line + seq![13u8, 10u8] + tail);
    let at = line.len() as int;
    assert(wire.subrange(at + 2, at + 2 + n) =~= payload);
    assert(wire.subrange(at + 2 + n, at + 4 + n) =~= seq![13u8, 10u8]);
    assert(wire.skip(at + 4 + n) =~= behind);
}

/// A client reads the payload of chunks back: the units, one after the other, up
/// to the last chunk, and then what follows it.
pub proof fn chunks_read_back(units: Seq<Seq<u8>>, rest: Seq<u8>)
    requires
        forall|i: int| 0 <= i < units.len() ==> (#[trigger] units[i]).len() <= usize::MAX,
    ensures
        dechunked(middleware::encoded(units, true) + output::utf8("0\r\n"@) + rest) == Some(
            (units.flatten(), rest),
        ),
    decreases units.len(),
{
    let end = output::utf8("0\r\n"@);
    let wire = middleware::encoded(units, true) + end + rest;
    if units.len() == 0 {
        assert(wire =~= end + rest);
        assert(units.flatten() =~= Seq::<u8>::empty());
        lemma_last_chunk(rest);
    } else {
        let first = units[0];
        let others = units.skip(1);
        assert forall|i: int| 0 <= i < others.len() implies (#[trigger] others[i]).len()
            <= usize::MAX by {
            assert(others[i] == units[i + 1]);
        }
        assert(units[0].len() <= usize::MAX);
        chunks_read_back(others, rest);
        lemma_encoded_front(units);
        let behind = middleware::encoded(others, true) + end + rest;
        assert(units.drop_first() =~= others);
        assert(units.flatten() == first + others.flatten());
        assert(wire =~= output::chunk(first) + behind);
        if first.len() == 0 {
            assert(wire =~= behind);
            assert(first + others.flatten() =~= others.flatten());
        } else {
            lemma_first_chunk(first, behind);
        }
    }
}

/// The lines of trailers, each with its line ending, and a blank line.
pub open spec fn trailer_section(
    trailers: Seq<HttpHeader>,
) -> Seq<u8> {
    output::utf8(
        text_laws::ended(
            trailers.map_values(
                |t: HttpHeader| t.name@ + ": "@ + t.value@,
            ).push(Seq::empty()),
        ),
    )
}

proof fn lemma_trailers(trailers: Seq<HttpHeader>)
    ensures
        output::trailer_lines(head::headers_of(trailers)) == output::utf8(
            text_laws::ended(
                trailers.map_values(
                    |t: HttpHeader| t.name@ + ": "@ + t.value@,
                ),
            ),
        ),
    decreases trailers.len(),
{
    let f = |t: HttpHeader| t.name@ + ": "@ + t.value@;
    lemma_crlf();
    if trailers.len() > 0 {
        let before = trailers.drop_last();
        lemma_trailers(before);
        let lines = trailers.map_values(f);
        assert(lines.drop_last() =~= before.map_values(f));
        assert(lines.last() == f(trailers.last()));
        assert(head::headers_of(trailers).drop_last() =~= head::headers_of(before));
        let start = text_laws::ended(before.map_values(f));
        let last = trailers.last().name@ + ": "@ + trailers.last().value@ + output::crlf();
        assert(text_laws::ended(lines) =~= start + last);
        diagnostics::lemma_encode_add(start, last);
        assert(head::headers_of(trailers).last() == trailers.last()@);
    } else {
        assert(trailers.map_values(f) =~= Seq::<Seq<char>>::empty());
        assert(text_laws::ended(Seq::<Seq<char>>::empty()) =~= Seq::<char>::empty());
        assert(output::utf8(Seq::<char>::empty()) =~= Seq::<u8>::empty());
    }
}

proof fn lemma_body_end(trailers: Seq<HttpHeader>)
    ensures
        output::body_end(head::headers_of(trailers)) == output::utf8("0\r\n"@) + trailer_section(
            trailers,
        ),
{
    let f = |t: HttpHeader| t.name@ + ": "@ + t.value@;
    lemma_trailers(trailers);
    lemma_crlf();
    let lines = trailers.map_values(f);
    let all = lines.push(Seq::empty());
    assert(all.drop_last() =~= lines);
    assert(text_laws::ended(all) =~= text_laws::ended(lines) + seq!['\r', '\n']);
    diagnostics::lemma_encode_add(text_laws::ended(lines), seq!['\r', '\n']);
    assert(output::body_end(head::headers_of(trailers)) =~= output::utf8("0\r\n"@)
        + trailer_section(trailers));
}

/// A whole body with trailers that the client can take is written as a head that
/// announces chunks and declares the trailers by name, followed by chunks of which
/// a client reads the released body units back, and the trailers.
pub proof fn whole_body_with_trailers_reads_back(
    session: SessionHead,
    finish: SessionFinish,
    server_wants_close: bool,
    stale_names: Seq<Seq<char>>,
)
    requires
        finish.trailers@.len() > 0,
        bytes_of_units(finish.body_units@).len() <= u64::MAX,
        forall|i: int|
            0 <= i < finish.body_units@.len() ==> (#[trigger] finish.body_units@[i])@.len()
                <= usize::MAX,
    ensures
        ({
            let head = output::utf8(
                text_laws::ended(
                    lines_of_head(
                        session.status_line@,
                        delivered_fields(
                            session,
                            finish.strip_stale_integrity_headers,
                            stale_names,
                        ),
                        text::texts(session.preserved_credential_headers@),
                        ResponseFraming::Chunked,
                        server_wants_close,
                        finish.trailers@.map_values(
                            |t: HttpHeader| t.name@,
                        ),
                    ).push(Seq::empty()),
                ),
            );
            let written = middleware::whole_output(
                session,
                finish,
                true,
                server_wants_close,
                stale_names,
            );
            &&& ends_in_blank_line(head)
            &&& head.len() <= written.len() && written.take(head.len() as int) == head
            &&& dechunked(written.skip(head.len() as int)) == Some(
                (bytes_of_units(finish.body_units@), trailer_section(finish.trailers@)),
            )
        }),
{
    let units = body::contents(finish.body_units@);
    assert(units == finish.body_units@.map_values(|unit: Vec<u8>| unit@));
    lemma_delivered(session, finish.strip_stale_integrity_headers, stale_names);
    lemma_body_end(finish.trailers@);
    let fields = delivered_fields(session, finish.strip_stale_integrity_headers, stale_names);
    let preserved = text::texts(session.preserved_credential_headers@);
    let names = finish.trailers@.map_values(|t: HttpHeader| t.name@);
    assert(middleware::names_of(head::headers_of(finish.trailers@)) =~= names);
    head_is_its_lines(
        session.status_line@,
        fields,
        preserved,
        ResponseFraming::Chunked,
        server_wants_close,
        names,
    );
    let lines = lines_of_head(
        session.status_line@,
        fields,
        preserved,
        ResponseFraming::Chunked,
        server_wants_close,
        names,
    );
    assert(lines[0] == session.status_line@);
    lemma_head_ends(lines);
    let head = output::utf8(text_laws::ended(lines.push(Seq::empty())));
    let written = middleware::whole_output(session, finish, true, server_wants_close, stale_names);
    let behind = middleware::encoded(units, true) + output::utf8("0\r\n"@) + trailer_section(
        finish.trailers@,
    );
    assert(written =~= head + behind);
    assert(written.take(head.len() as int) =~= head);
    assert(written.skip(head.len() as int) =~= behind);
    assert forall|i: int| 0 <= i < units.len() implies (#[trigger] units[i]).len() <= usize::MAX by {
        assert(units[i] == finish.body_units@[i]@);
    }
    chunks_read_back(units, trailer_section(finish.trailers@));
}

/// The head under which units are streamed announces chunks and the declared
/// trailers where the client takes chunks, and otherwise says that the connection
/// closes and frames nothing.
pub proof fn streaming_head_frames_by_chunks_or_close(
    session: SessionHead,
    supports_chunked: bool,
    server_wants_close: bool,
)
    ensures
        middleware::streaming_head_text(session, supports_chunked, server_wants_close)
            == text_laws::ended(
            lines_of_head(
                session.status_line@,
                session.headers@.map_values(
                    |h: HttpHeader|
                        HeaderModel { name: h.name@, value: h.value@ },
                ),
                text::texts(session.preserved_credential_headers@),
                if supports_chunked {
                    ResponseFraming::Chunked
                } else {
                    ResponseFraming::Preserve(BodyLength::Absent)
                },
                server_wants_close || !supports_chunked,
                if supports_chunked {
                    text::texts(session.declared_trailers@)
                } else {
                    Seq::empty()
                },
            ).push(Seq::empty()),
        ),
{
    assert(head::headers_of(session.headers@) =~= session.headers@.map_values(
        |h: HttpHeader| HeaderModel { name: h.name@, value: h.value@ },
    ));
    head_is_its_lines(
        session.status_line@,
        head::headers_of(session.headers@),
        text::texts(session.preserved_credential_headers@),
        if supports_chunked {
            ResponseFraming::Chunked
        } else {
            ResponseFraming::Preserve(BodyLength::Absent)
        },
        server_wants_close || !supports_chunked,
        if supports_chunked {
            text::texts(session.declared_trailers@)
        } else {
            Seq::empty()
        },
    );
}

/// A streamed body reads back: what was delivered before and what is written at
/// the end are together the units that the session released, one after the
/// other, followed by the trailers where the client takes chunks.
pub proof fn streamed_body_reads_back(
    earlier: Seq<Seq<u8>>,
    finish: SessionFinish,
    supports_chunked: bool,
)
    requires
        forall|i: int| 0 <= i < earlier.len() ==> (#[trigger] earlier[i]).len() <= usize::MAX,
        forall|i: int|
            0 <= i < finish.body_units@.len() ==> (#[trigger] finish.body_units@[i])@.len()
                <= usize::MAX,
    ensures
        ({
            let written = middleware::encoded(earlier, supports_chunked)
                + middleware::streamed_output(finish, supports_chunked);
            let payload = earlier.flatten() + bytes_of_units(finish.body_units@);
            if supports_chunked {
                dechunked(written) == Some((payload, trailer_section(finish.trailers@)))
            } else {
                written == payload
            }
        }),
{
    let units = body::contents(finish.body_units@);
    assert(units == finish.body_units@.map_values(|unit: Vec<u8>| unit@));
    lemma_flat(earlier);
    lemma_flat(units);
    lemma_flatten_add(earlier, units);
    if supports_chunked {
        lemma_body_end(finish.trailers@);
        lemma_encoded_add(earlier, units);
        let all = earlier + units;
        assert forall|i: int| 0 <= i < all.len() implies (#[trigger] all[i]).len()
            <= usize::MAX by {
            if i < earlier.len() {
                assert(all[i] == earlier[i]);
            } else {
                assert(all[i] == finish.body_units@[i - earlier.len()]@);
            }
        }
        chunks_read_back(all, trailer_section(finish.trailers@));
        assert(middleware::encoded(earlier, true) + middleware::streamed_output(finish, true)
            =~= middleware::encoded(all, true) + output::utf8("0\r\n"@) + trailer_section(
            finish.trailers@,
        ));
    }
}

proof fn lemma_flatten_add(a: Seq<Seq<u8>>, b: Seq<Seq<u8>>)
    ensures
        (a + b).flatten() == a.flatten() + b.flatten(),
    decreases a.len(),
{
    if a.len() == 0 {
        assert(a + b =~= b);
        assert(a.flatten() + b.flatten() =~= b.flatten());
    } else {
        lemma_flatten_add(a.drop_first(), b);
        assert((a + b).drop_first() =~= a.drop_first() + b);
        assert((a + b).first() == a.first());
        assert((a + b).flatten() =~= a.flatten() + b.flatten());
    }
}

proof fn lemma_encoded_add(a: Seq<Seq<u8>>, b: Seq<Seq<u8>>)
    ensures
        middleware::encoded(a + b, true) == middleware::encoded(a, true) + middleware::encoded(
            b,
            true,
        ),
    decreases b.len(),
{
    if b.len() == 0 {
        assert(a + b =~= a);
        assert(middleware::encoded(a, true) + middleware::encoded(b, true)
            =~= middleware::encoded(a, true));
    } else {
        lemma_encoded_add(a, b.drop_last());
        assert((a + b).drop_last() =~= a + b.drop_last());
        assert((a + b).last() == b.last());
        assert(middleware::encoded(a + b, true) =~= middleware::encoded(a, true)
            + middleware::encoded(b, true));
    }
}

/// Whether bytes carry units, one after the other: as they are, or in chunks of
/// which a client reads them back.
pub open spec fn carries(written: Seq<u8>, units: Seq<Seq<u8>>, chunked: bool) -> bool {
    if chunked {
        dechunked(written + output::utf8("0\r\n"@) + Seq::empty()) == Some(
            (units.flatten(), Seq::<u8>::empty()),
        )
    } else {
        written == units.flatten()
    }
}

/// Units that a session releases are written in full, behind the head where
/// nothing was delivered before. Only a pending whole-body stage may not release
/// any, and without units nothing is written before the first.
pub proof fn released_units_are_written(
    committed: bool,
    units: Seq<Seq<u8>>,
    whole_body_pending: bool,
    chunked: bool,
    commit_head: Seq<u8>,
)
    requires
        forall|i: int| 0 <= i < units.len() ==> (#[trigger] units[i]).len() <= usize::MAX,
    ensures
        match middleware::unit_delivery(
            committed,
            units,
            whole_body_pending,
            chunked,
            commit_head,
        ) {
            UnitDeliveryModel::Refused => !committed && units.len() > 0 && whole_body_pending,
            UnitDeliveryModel::Nothing => !committed && units.len() == 0,
            UnitDeliveryModel::Write { commits, bytes } => {
                &&& commits <==> !committed
                &&& commits ==> units.len() > 0 && !whole_body_pending
                &&& committed ==> carries(bytes, units, chunked)
                &&& !committed ==> exists|written: Seq<u8>|
                    #[trigger] (commit_head + written) == bytes && carries(written, units, chunked)
            },
        },
{
    lemma_flat(units);
    chunks_read_back(units, Seq::empty());
    let written = middleware::encoded(units, chunked);
    assert(carries(written, units, chunked));
    assert(commit_head + written == commit_head + middleware::encoded(units, chunked));
}

/// Whether a request method is `HEAD`, in any case.
pub open spec fn asks_for_head(method: Seq<char>) -> bool {
    text::lowered(method) == "head"@
}

/// A response of the relay's own is a head of a status line, the type, the length
/// of the body, the policy and the close, followed by exactly the body, or by
/// nothing where the request asks for the head alone.
pub proof fn own_response_reads_back(
    status: Seq<char>,
    request_method: Seq<char>,
    policy_name: Seq<char>,
    body: Seq<u8>,
)
    ensures
        output::canonical_response(status, request_method, policy_name, body) == output::utf8(
            text_laws::ended(
                seq![
                    "HTTP/1.1 "@ + status,
                    "Content-Type: application/json"@,
                    "Content-Length: "@ + numeral::numeral(body.len(), Base::Decimal),
                    "X-OpenShell-Policy: "@ + policy_name,
                    "Connection: close"@,
                    Seq::empty(),
                ],
            ),
        ) + if asks_for_head(request_method) {
            Seq::empty()
        } else {
            body
        },
{
    let length = numeral::numeral(body.len(), Base::Decimal);
    let a = "HTTP/1.1 "@ + status;
    let b = "Content-Type: application/json"@;
    let c = "Content-Length: "@ + length;
    let d = "X-OpenShell-Policy: "@ + policy_name;
    let e = "Connection: close"@;
    let lines = seq![a, b, c, d, e, Seq::<char>::empty()];
    let n = seq!['\r', '\n'];
    assert(text_laws::ended(lines) == a + n + b + n + c + n + d + n + e + n + n) by {
        assert(lines.drop_last() =~= seq![a, b, c, d, e]);
        assert(seq![a, b, c, d, e].drop_last() =~= seq![a, b, c, d]);
        assert(seq![a, b, c, d].drop_last() =~= seq![a, b, c]);
        assert(seq![a, b, c].drop_last() =~= seq![a, b]);
        assert(seq![a, b].drop_last() =~= seq![a]);
        lemma_one_line(a);
        assert(text_laws::ended(seq![a, b]) == a + n + b + n);
        assert(text_laws::ended(seq![a, b, c]) == a + n + b + n + c + n);
        assert(text_laws::ended(seq![a, b, c, d]) == a + n + b + n + c + n + d + n);
        assert(text_laws::ended(seq![a, b, c, d, e]) == a + n + b + n + c + n + d + n + e + n);
        assert(text_laws::ended(lines) =~= text_laws::ended(seq![a, b, c, d, e]) + n);
    }
    reveal_strlit("\r\nContent-Type: application/json\r\nContent-Length: ");
    reveal_strlit("Content-Type: application/json");
    reveal_strlit("Content-Length: ");
    reveal_strlit("\r\nX-OpenShell-Policy: ");
    reveal_strlit("X-OpenShell-Policy: ");
    reveal_strlit("\r\nConnection: close\r\n\r\n");
    reveal_strlit("Connection: close");
    assert("\r\nContent-Type: application/json\r\nContent-Length: "@ =~= n + b + n
        + "Content-Length: "@);
    assert("\r\nX-OpenShell-Policy: "@ =~= n + "X-OpenShell-Policy: "@);
    assert("\r\nConnection: close\r\n\r\n"@ =~= n + e + n + n);
    let head = "HTTP/1.1 "@ + status + "\r\nContent-Type: application/json\r\nContent-Length: "@
        + length + "\r\nX-OpenShell-Policy: "@ + policy_name + "\r\nConnection: close\r\n\r\n"@;
    assert(head =~= a + n + b + n + c + n + d + n + e + n + n);
    reveal_strlit("HEAD");
    reveal_strlit("head");
    assert(text::lowered("HEAD"@) =~= "head"@);
    assert(output::utf8(head) + Seq::<u8>::empty() =~= output::utf8(head));
}

} // verus!
