//! What is read of every response head.

use crate::bytes;
use crate::l7::rest::head;
use crate::l7::rest::head::{CredentialFields, FieldFault, HeaderModel};
use crate::l7::rest::output;
use crate::l7::rest::parsed_head;
use crate::l7::rest::parsed_head::{Fields, Scan};
use crate::numeral;
use crate::numeral::Base;
use crate::text;
use crate::text::CharClass;
use crate::text_laws;
use vstd::prelude::*;

verus! {

proof fn lemma_status_words(version: Seq<char>, code: Seq<char>, reason: Seq<char>)
    requires
        text_laws::is_one_word(version),
        text_laws::is_one_word(code),
    ensures
        ({
            let words = text::words(version + seq![' '] + code + seq![' '] + reason);
            words.len() >= 2 && words[0] == version && words[1] == code
        }),
{
    let start = version + seq![' '] + code;
    text_laws::text_without_white_space_is_one_word(version);
    text_laws::text_without_white_space_is_one_word(code);
    text_laws::words_follow(version, ' ', code);
    text_laws::words_follow(start, ' ', reason);
    assert(text::words(start) == seq![version] + seq![code]);
}

/// The status of a response is the second word of its first line, whatever
/// follows.
pub proof fn status_is_the_second_word(
    version: Seq<char>,
    code: Seq<char>,
    reason: Seq<char>,
    fields: Seq<Seq<char>>,
)
    requires
        text_laws::is_one_word(version),
        text_laws::is_one_word(code),
        text_laws::is_plain_line(reason),
        forall|i: int| 0 <= i < fields.len() ==> text_laws::is_plain_line(#[trigger] fields[i]),
    ensures
        ({
            let line = version + seq![' '] + code + seq![' '] + reason;
            let text = text_laws::ended(seq![line] + fields);
            &&& head::status_code(text) == numeral::number(code, Base::Decimal, u16::MAX as nat)
            &&& head::is_http_10(text) <==> version == "HTTP/1.0"@
        }),
{
    let line = version + seq![' '] + code + seq![' '] + reason;
    lemma_first_line(version, code, reason, fields);
    lemma_status_words(version, code, reason);
}

proof fn lemma_first_line(
    version: Seq<char>,
    code: Seq<char>,
    reason: Seq<char>,
    fields: Seq<Seq<char>>,
)
    requires
        text_laws::is_one_word(version),
        text_laws::is_one_word(code),
        text_laws::is_plain_line(reason),
        forall|i: int| 0 <= i < fields.len() ==> text_laws::is_plain_line(#[trigger] fields[i]),
    ensures
        ({
            let line = version + seq![' '] + code + seq![' '] + reason;
            text::lines(text_laws::ended(seq![line] + fields)) == seq![line] + fields
        }),
{
    let line = version + seq![' '] + code + seq![' '] + reason;
    let all = seq![line] + fields;
    assert(text_laws::is_plain_line(line)) by {
        assert forall|i: int| 0 <= i < line.len() implies #[trigger] line[i] != '\r' && line[i]
            != '\n' by {
            if i < version.len() {
                assert(line[i] == version[i]);
                assert(!text::is_white_space(version[i]));
            } else if i == version.len() {
            } else if i < version.len() + 1 + code.len() {
                assert(line[i] == code[i - version.len() - 1]);
                assert(!text::is_white_space(code[i - version.len() - 1]));
            } else if i > version.len() + 1 + code.len() {
                assert(line[i] == reason[i - version.len() - code.len() - 2]);
            }
        }
    }
    assert forall|i: int| 0 <= i < all.len() implies text_laws::is_plain_line(#[trigger] all[i]) by {
        if i > 0 {
            assert(all[i] == fields[i - 1]);
        }
    }
    text_laws::ended_lines_read_back(all);
}

/// A status is observed only of HTTP/1.0 and HTTP/1.1, as three digits from 100
/// up.
pub proof fn observed_status_is_three_digits(
    version: Seq<char>,
    code: Seq<char>,
    reason: Seq<char>,
    fields: Seq<Seq<char>>,
)
    requires
        text_laws::is_one_word(version),
        text_laws::is_one_word(code),
        text_laws::is_plain_line(reason),
        forall|i: int| 0 <= i < fields.len() ==> text_laws::is_plain_line(#[trigger] fields[i]),
    ensures
        ({
            let line = version + seq![' '] + code + seq![' '] + reason;
            let text = text_laws::ended(seq![line] + fields);
            head::observed_status_code(text) == if (version == "HTTP/1.0"@ || version
                == "HTTP/1.1"@) && code.len() == 3 && '1' <= code[0] && code[0] <= '9' && '0'
                <= code[1] && code[1] <= '9' && '0' <= code[2] && code[2] <= '9' {
                Some(
                    (100 * (code[0] as u32 - 48) + 10 * (code[1] as u32 - 48) + (code[2] as u32
                        - 48)) as nat,
                )
            } else {
                None::<nat>
            }
        }),
{
    lemma_first_line(version, code, reason, fields);
    lemma_status_words(version, code, reason);
    if code.len() == 3 && head::is_digit(code[0]) && head::is_digit(code[1]) && head::is_digit(
        code[2],
    ) {
        let a = code.drop_last();
        let b = a.drop_last();
        assert(b.drop_last().len() == 0);
        assert(numeral::digits_value(b.drop_last(), Base::Decimal) == Some(0int));
        assert(numeral::digits_value(b, Base::Decimal) == Some(code[0] as u32 - 48));
        assert(numeral::digits_value(a, Base::Decimal) == Some(
            10 * (code[0] as u32 - 48) + (code[1] as u32 - 48),
        ));
        assert(numeral::digits_value(code, Base::Decimal) == Some(
            100 * (code[0] as u32 - 48) + 10 * (code[1] as u32 - 48) + (code[2] as u32 - 48),
        ));
    }
}

proof fn lemma_prefixed(name: Seq<char>, value: Seq<char>, prefix: Seq<char>)
    requires
        text::lowered(name) + seq![':'] == prefix,
    ensures
        text::strip_prefix(text::lowered(name + seq![':'] + value), prefix) == Some(
            text::lowered(value),
        ),
{
    let line = name + seq![':'] + value;
    let lower = text::lowered(line);
    assert(lower =~= prefix + text::lowered(value)) by {
        assert(text::lowered(seq![':']) =~= seq![':']);
        assert(text::lowered(line) =~= text::lowered(name) + text::lowered(seq![':'])
            + text::lowered(value));
    }
    assert(lower.take(prefix.len() as int) =~= prefix);
    assert(lower.skip(prefix.len() as int) =~= text::lowered(value));
}

proof fn lemma_trim_space(s: Seq<char>)
    requires
        s.len() > 0,
        !text::is_white_space(s[0]),
        !text::is_white_space(s.last()),
    ensures
        text::trim(seq![' '] + s, CharClass::WhiteSpace) == s,
{
    let padded = seq![' '] + s;
    assert(padded[0] == ' ');
    assert(padded.skip(1) =~= s);
    assert(text::trim_start(s, CharClass::WhiteSpace) == s);
    assert(text::trim_start(padded, CharClass::WhiteSpace) == s);
    assert(text::trim_end(s, CharClass::WhiteSpace) == s);
}

/// A field `Connection: close`, in any case, closes the connection wherever it
/// stands behind the status line.
pub proof fn close_field_closes(
    first: Seq<char>,
    fields: Seq<Seq<char>>,
    name: Seq<char>,
    value: Seq<char>,
    k: int,
)
    requires
        text_laws::is_plain_line(first),
        forall|i: int| 0 <= i < fields.len() ==> text_laws::is_plain_line(#[trigger] fields[i]),
        0 <= k < fields.len(),
        text::lowered(name) == "connection"@,
        text::lowered(value) == "close"@,
        fields[k] == name + seq![':', ' '] + value,
    ensures
        head::connection_closes(text_laws::ended(seq![first] + fields)),
{
    let all = seq![first] + fields;
    assert forall|i: int| 0 <= i < all.len() implies text_laws::is_plain_line(#[trigger] all[i]) by {
        if i > 0 {
            assert(all[i] == fields[i - 1]);
        }
    }
    text_laws::ended_lines_read_back(all);
    reveal_strlit("connection:");
    reveal_strlit("connection");
    reveal_strlit("close");
    assert("connection"@ + seq![':'] =~= "connection:"@);
    let padded = seq![' '] + value;
    assert(fields[k] =~= name + seq![':'] + padded);
    lemma_prefixed(name, padded, "connection:"@);
    let lower = text::lowered(padded);
    assert(lower =~= seq![' '] + "close"@);
    assert("close"@[0] == 'c');
    assert("close"@.last() == 'e');
    lemma_trim_space("close"@);
    assert(text::stands_at("close"@, "close"@, 0)) by {
        assert("close"@.subrange(0, 5) =~= "close"@);
    }
    assert(head::line_closes(fields[k]));
    assert(all[k + 1] == fields[k]);
}

/// Where no field is a `Connection` field, nothing closes the connection and
/// nothing keeps it.
pub proof fn other_fields_do_not_speak_of_the_connection(
    first: Seq<char>,
    fields: Seq<Seq<char>>,
)
    requires
        text_laws::is_plain_line(first),
        forall|i: int| 0 <= i < fields.len() ==> text_laws::is_plain_line(#[trigger] fields[i]),
        forall|i: int|
            0 <= i < fields.len() ==> text::strip_prefix(
                text::lowered(#[trigger] fields[i]),
                "connection:"@,
            ) is None,
    ensures
        !head::connection_closes(text_laws::ended(seq![first] + fields)),
        !head::connection_keeps_alive(text_laws::ended(seq![first] + fields)),
{
    let all = seq![first] + fields;
    assert forall|i: int| 0 <= i < all.len() implies text_laws::is_plain_line(#[trigger] all[i]) by {
        if i > 0 {
            assert(all[i] == fields[i - 1]);
        }
    }
    text_laws::ended_lines_read_back(all);
    assert forall|i: int| 1 <= i < all.len() implies !head::line_closes(#[trigger] all[i])
        && !head::line_keeps_alive(all[i]) by {
        assert(all[i] == fields[i - 1]);
    }
}

/// A field `Connection: keep-alive`, in any case, keeps the connection.
pub proof fn keep_alive_field_keeps(
    first: Seq<char>,
    fields: Seq<Seq<char>>,
    name: Seq<char>,
    value: Seq<char>,
    k: int,
)
    requires
        text_laws::is_plain_line(first),
        forall|i: int| 0 <= i < fields.len() ==> text_laws::is_plain_line(#[trigger] fields[i]),
        0 <= k < fields.len(),
        text::lowered(name) == "connection"@,
        text::lowered(value) == "keep-alive"@,
        fields[k] == name + seq![':', ' '] + value,
    ensures
        head::connection_keeps_alive(text_laws::ended(seq![first] + fields)),
{
    let all = seq![first] + fields;
    assert forall|i: int| 0 <= i < all.len() implies text_laws::is_plain_line(#[trigger] all[i]) by {
        if i > 0 {
            assert(all[i] == fields[i - 1]);
        }
    }
    text_laws::ended_lines_read_back(all);
    reveal_strlit("connection:");
    reveal_strlit("connection");
    reveal_strlit("keep-alive");
    assert("connection"@ + seq![':'] =~= "connection:"@);
    let padded = seq![' '] + value;
    assert(fields[k] =~= name + seq![':'] + padded);
    lemma_prefixed(name, padded, "connection:"@);
    let lower = text::lowered(padded);
    assert(lower =~= seq![' '] + "keep-alive"@);
    assert forall|i: int| 0 <= i < lower.len() implies #[trigger] lower[i] != ',' by {
        if i > 0 {
            assert(lower[i] == "keep-alive"@[i - 1]);
        }
    }
    text_laws::text_without_separator_is_one_part(lower, ',');
    assert("keep-alive"@[0] == 'k');
    assert("keep-alive"@.last() == 'e');
    lemma_trim_space("keep-alive"@);
    assert(text::split(lower, ',')[0] == lower);
    assert(head::line_keeps_alive(fields[k]));
    assert(all[k + 1] == fields[k]);
}

/// A field `Content-Type: text/event-stream`, in any case and with any
/// parameters, says that events are streamed.
pub proof fn event_stream_field_streams(
    first: Seq<char>,
    fields: Seq<Seq<char>>,
    name: Seq<char>,
    value: Seq<char>,
    parameters: Seq<char>,
    k: int,
)
    requires
        text_laws::is_plain_line(first),
        forall|i: int| 0 <= i < fields.len() ==> text_laws::is_plain_line(#[trigger] fields[i]),
        0 <= k < fields.len(),
        text::lowered(name) == "content-type"@,
        text::lowered(value) == "text/event-stream"@,
        parameters.len() == 0 || parameters[0] == ';',
        fields[k] == name + seq![':', ' '] + value + parameters,
    ensures
        head::is_event_stream(text_laws::ended(seq![first] + fields)),
{
    let all = seq![first] + fields;
    assert forall|i: int| 0 <= i < all.len() implies text_laws::is_plain_line(#[trigger] all[i]) by {
        if i > 0 {
            assert(all[i] == fields[i - 1]);
        }
    }
    text_laws::ended_lines_read_back(all);
    reveal_strlit("content-type:");
    reveal_strlit("content-type");
    reveal_strlit("text/event-stream");
    assert("content-type"@ + seq![':'] =~= "content-type:"@);
    let padded = seq![' '] + value + parameters;
    assert(fields[k] =~= name + seq![':'] + padded);
    lemma_prefixed(name, padded, "content-type:"@);
    let lower = text::lowered(padded);
    let mime = seq![' '] + "text/event-stream"@;
    assert(lower =~= mime + text::lowered(parameters)) by {
        assert(text::lowered(seq![' ']) =~= seq![' ']);
        assert(lower =~= text::lowered(seq![' ']) + text::lowered(value) + text::lowered(
            parameters,
        ));
    }
    assert forall|i: int| 0 <= i < mime.len() implies #[trigger] mime[i] != ';' by {
        if i > 0 {
            assert(mime[i] == "text/event-stream"@[i - 1]);
        }
    }
    if parameters.len() > 0 {
        let rest = text::lowered(parameters).skip(1);
        assert(text::lowered(parameters)[0] == ';');
        assert(text::lowered(parameters) =~= seq![';'] + rest);
        assert(lower =~= mime + seq![';'] + rest);
        text_laws::text_is_parted_at_its_separator(mime, ';', rest);
    } else {
        assert(lower =~= mime);
        text_laws::text_is_parted_at_its_separator(mime, ';', Seq::empty());
    }
    assert(text::before_first(lower, ';') == mime);
    assert("text/event-stream"@[0] == 't');
    assert("text/event-stream"@.last() == 'm');
    lemma_trim_space("text/event-stream"@);
    assert(head::line_is_event_stream(fields[k]));
    assert(all[k + 1] == fields[k]);
}

/// Where no field is a `Content-Type` field, no events are streamed.
pub proof fn other_fields_stream_no_events(first: Seq<char>, fields: Seq<Seq<char>>)
    requires
        text_laws::is_plain_line(first),
        forall|i: int| 0 <= i < fields.len() ==> text_laws::is_plain_line(#[trigger] fields[i]),
        forall|i: int|
            0 <= i < fields.len() ==> text::strip_prefix(
                text::lowered(#[trigger] fields[i]),
                "content-type:"@,
            ) is None,
    ensures
        !head::is_event_stream(text_laws::ended(seq![first] + fields)),
{
    let all = seq![first] + fields;
    assert forall|i: int| 0 <= i < all.len() implies text_laws::is_plain_line(#[trigger] all[i]) by {
        if i > 0 {
            assert(all[i] == fields[i - 1]);
        }
    }
    text_laws::ended_lines_read_back(all);
    assert forall|i: int| 1 <= i < all.len() implies !head::line_is_event_stream(
        #[trigger] all[i],
    ) by {
        assert(all[i] == fields[i - 1]);
    }
}

/// The fields that belong to one connection are hidden from middleware, in any
/// case, and no others.
pub proof fn connection_fields_are_hidden(name: Seq<char>)
    ensures
        head::is_hidden_field(name) <==> seq![
            "connection"@,
            "keep-alive"@,
            "proxy-authenticate"@,
            "proxy-authorization"@,
            "proxy-connection"@,
            "te"@,
            "trailer"@,
            "transfer-encoding"@,
            "upgrade"@,
        ].contains(text::lowered(name)),
{
    let list = seq![
        "connection"@,
        "keep-alive"@,
        "proxy-authenticate"@,
        "proxy-authorization"@,
        "proxy-connection"@,
        "te"@,
        "trailer"@,
        "transfer-encoding"@,
        "upgrade"@,
    ];
    assert(list[0] == "connection"@ && list[1] == "keep-alive"@ && list[2] == "proxy-authenticate"@
        && list[3] == "proxy-authorization"@ && list[4] == "proxy-connection"@ && list[5] == "te"@
        && list[6] == "trailer"@ && list[7] == "transfer-encoding"@ && list[8] == "upgrade"@);
}

/// A field name is made of visible ASCII characters other than delimiters, at
/// least one; a field value holds no control character but the tab.
pub proof fn field_characters(c: char)
    ensures
        head::is_field_name(seq![c]) <==> '!' <= c && c <= '~' && !(c == '"' || c == '(' || c == ')'
            || c == ',' || c == '/' || c == ':' || c == ';' || c == '<' || c == '=' || c == '>' || c
            == '?' || c == '@' || c == '[' || c == '\\' || c == ']' || c == '{' || c == '}'),
        head::is_field_value(seq![c]) <==> c == '\t' || (' ' <= c && c != '\u{7f}'),
        !head::is_field_name(Seq::empty()),
        head::is_field_value(Seq::empty()),
{
    assert(seq![c][0] == c);
}

/// A name or value of several characters is one where each character is.
pub proof fn field_characters_count_one_by_one(a: Seq<char>, b: Seq<char>)
    requires
        a.len() > 0,
        b.len() > 0,
    ensures
        head::is_field_name(a + b) <==> head::is_field_name(a) && head::is_field_name(b),
        head::is_field_value(a + b) <==> head::is_field_value(a) && head::is_field_value(b),
{
    let all = a + b;
    assert forall|i: int| 0 <= i < a.len() implies all[i] == #[trigger] a[i] by {}
    assert forall|i: int| 0 <= i < b.len() implies all[a.len() + i] == #[trigger] b[i] by {}
    if head::is_field_name(all) {
        assert forall|i: int| 0 <= i < a.len() implies head::is_field_name_char(#[trigger] a[i]) by {
            assert(head::is_field_name_char(all[i]));
        }
        assert forall|i: int| 0 <= i < b.len() implies head::is_field_name_char(#[trigger] b[i]) by {
            assert(head::is_field_name_char(all[a.len() + i]));
        }
    }
    if head::is_field_value(all) {
        assert forall|i: int| 0 <= i < a.len() implies !head::is_control(#[trigger] a[i]) by {
            assert(!head::is_control(all[i]));
        }
        assert forall|i: int| 0 <= i < b.len() implies !head::is_control(#[trigger] b[i]) by {
            assert(!head::is_control(all[a.len() + i]));
        }
    }
}

/// Whether a name and a value make a valid field.
pub open spec fn is_valid_field(name: Seq<char>, value: Seq<char>) -> bool {
    head::is_field_name(name) && head::is_field_value(text::trim(value, CharClass::WhiteSpace))
}

proof fn lemma_name_has_no_colon(name: Seq<char>, value: Seq<char>)
    requires
        head::is_field_name(name),
    ensures
        text::split_once(name + seq![':'] + value, ':') == Some((name, value)),
        (name + seq![':'] + value).len() > 0,
{
    assert forall|i: int| 0 <= i < name.len() implies #[trigger] name[i] != ':' by {
        assert(head::is_field_name_char(name[i]));
    }
    text_laws::text_is_parted_at_its_separator(name, ':', value);
}

/// A valid field that belongs neither to the connection nor to the credentials
/// is shown to middleware, behind those before it, with its name in lower case
/// and its value trimmed. A credential is kept back as its line stands, and a
/// field of the connection is dropped.
pub proof fn field_is_shown_kept_back_or_dropped(
    lines: Seq<Seq<char>>,
    nominated: Seq<Seq<char>>,
    credentials: CredentialFields,
    name: Seq<char>,
    value: Seq<char>,
    before: Fields,
)
    requires
        parsed_head::kept_fields(lines, nominated, credentials) == Ok::<Fields, FieldFault>(before),
        is_valid_field(name, value),
    ensures
        parsed_head::kept_fields(
            lines.push(name + seq![':'] + value),
            nominated,
            credentials,
        ) == Ok::<Fields, FieldFault>(
            if credentials.has_name(name) {
                Fields {
                    headers: before.headers,
                    preserved: before.preserved.push(name + seq![':'] + value),
                }
            } else if nominated.contains(text::lowered(name)) || head::is_hidden_field(name) {
                before
            } else {
                Fields {
                    headers: before.headers.push(
                        HeaderModel {
                            name: text::lowered(name),
                            value: text::trim(value, CharClass::WhiteSpace),
                        },
                    ),
                    preserved: before.preserved,
                }
            },
        ),
{
    let line = name + seq![':'] + value;
    lemma_name_has_no_colon(name, value);
    assert(lines.push(line).drop_last() == lines);
    assert(text::lowered(text::lowered(name)) =~= text::lowered(name));
}

/// A line that is no valid field refuses the head; an empty line is passed over.
pub proof fn invalid_field_refuses_the_head(
    lines: Seq<Seq<char>>,
    nominated: Seq<Seq<char>>,
    credentials: CredentialFields,
    line: Seq<char>,
    before: Fields,
)
    requires
        parsed_head::kept_fields(lines, nominated, credentials) == Ok::<Fields, FieldFault>(before),
    ensures
        ({
            let after = parsed_head::kept_fields(lines.push(line), nominated, credentials);
            &&& line.len() == 0 ==> after == Ok::<Fields, FieldFault>(before)
            &&& line.len() > 0 && text::split_once(line, ':') is None ==> after == Err::<
                Fields,
                FieldFault,
            >(FieldFault::MalformedField)
            &&& line.len() > 0 ==> (text::split_once(line, ':') matches Some((name, value)) ==> (
            after is Ok <==> is_valid_field(name, value)))
        }),
{
    assert(lines.push(line).drop_last() == lines);
}

/// Whether a list holds the names that the parts of a `Connection` field
/// nominate: those that are not empty once trimmed, in lower case.
pub open spec fn nominates(parts: Seq<Seq<char>>, name: Seq<char>) -> bool {
    exists|i: int|
        0 <= i < parts.len() && text::trim(#[trigger] parts[i], CharClass::WhiteSpace).len() > 0
            && text::lowered(text::trim(parts[i], CharClass::WhiteSpace)) == name
}

proof fn lemma_with_name(list: Seq<Seq<char>>, name: Seq<char>, sought: Seq<char>)
    ensures
        parsed_head::with_name(list, name).contains(sought) <==> list.contains(sought) || sought
            == name,
    decreases list.len(),
{
    let after = parsed_head::with_name(list, name);
    if list.len() == 0 {
        assert(after[0] == name);
    } else if list[0] == name {
    } else if text::precedes(name, list[0]) {
        assert(after == seq![name] + list);
        assert(after[0] == name);
        if list.contains(sought) {
            let i = choose|i: int| 0 <= i < list.len() && list[i] == sought;
            assert(after[i + 1] == sought);
        }
        if after.contains(sought) && sought != name {
            let i = choose|i: int| 0 <= i < after.len() && after[i] == sought;
            assert(list[i - 1] == sought);
        }
    } else {
        let rest = list.skip(1);
        lemma_with_name(rest, name, sought);
        let tail = parsed_head::with_name(rest, name);
        assert(after == seq![list[0]] + tail);
        assert(after[0] == list[0]);
        if tail.contains(sought) {
            let i = choose|i: int| 0 <= i < tail.len() && tail[i] == sought;
            assert(after[i + 1] == sought);
        }
        if after.contains(sought) && sought != list[0] {
            let i = choose|i: int| 0 <= i < after.len() && after[i] == sought;
            assert(tail[i - 1] == sought);
        }
        if list.contains(sought) && sought != list[0] {
            let i = choose|i: int| 0 <= i < list.len() && list[i] == sought;
            assert(rest[i - 1] == sought);
        }
        if rest.contains(sought) {
            let i = choose|i: int| 0 <= i < rest.len() && rest[i] == sought;
            assert(list[i + 1] == sought);
        }
    }
}

/// A `Connection` field nominates each of its tokens, in lower case, and nothing
/// else; what was nominated before stays.
pub proof fn connection_field_nominates_its_tokens(
    list: Seq<Seq<char>>,
    parts: Seq<Seq<char>>,
    name: Seq<char>,
)
    ensures
        parsed_head::with_tokens(list, parts).contains(name) <==> list.contains(name) || nominates(
            parts,
            name,
        ),
    decreases parts.len(),
{
    if parts.len() > 0 {
        let before = parts.drop_last();
        connection_field_nominates_its_tokens(list, before, name);
        let token = text::trim(parts.last(), CharClass::WhiteSpace);
        lemma_with_name(parsed_head::with_tokens(list, before), text::lowered(token), name);
        if nominates(before, name) {
            let i = choose|i: int|
                0 <= i < before.len() && text::trim(
                    #[trigger] before[i],
                    CharClass::WhiteSpace,
                ).len() > 0 && text::lowered(text::trim(before[i], CharClass::WhiteSpace)) == name;
            assert(parts[i] == before[i]);
        }
        if nominates(parts, name) {
            let i = choose|i: int|
                0 <= i < parts.len() && text::trim(#[trigger] parts[i], CharClass::WhiteSpace).len()
                    > 0 && text::lowered(text::trim(parts[i], CharClass::WhiteSpace)) == name;
            if i < before.len() {
                assert(before[i] == parts[i]);
            }
        }
        if token.len() > 0 && text::lowered(token) == name {
            assert(parts[parts.len() - 1] == parts.last());
            assert(nominates(parts, name));
        }
    }
}

/// What `Connection` fields nominate is read from every one of them.
pub proof fn every_connection_field_is_read(
    lines: Seq<Seq<char>>,
    lists: Seq<Result<Seq<Seq<char>>, Seq<char>>>,
    name: Seq<char>,
    value: Seq<char>,
    before: Scan,
)
    requires
        parsed_head::scan(lines, lists) == Ok::<Scan, FieldFault>(before),
        is_valid_field(name, value),
        text::lowered(name) == "connection"@,
    ensures
        parsed_head::scan(lines.push(name + seq![':'] + value), lists) matches Ok(after) && {
            &&& after.trailers == before.trailers
            &&& forall|token: Seq<char>|
                #[trigger] after.nominated.contains(token) <==> before.nominated.contains(token)
                    || nominates(text::split(value, ','), token)
        },
{
    let line = name + seq![':'] + value;
    lemma_name_has_no_colon(name, value);
    assert(lines.push(line).drop_last() == lines);
    reveal_strlit("connection");
    let word = "connection"@;
    assert forall|i: int| 0 <= i < word.len() implies #[trigger] text::lowered(word)[i] == word[i] by {
        assert('a' <= word[i] && word[i] <= 'z');
    }
    assert(text::lowered(word) =~= word);
    assert forall|token: Seq<char>|
        #[trigger] parsed_head::with_tokens(before.nominated, text::split(value, ',')).contains(
            token,
        ) <==> before.nominated.contains(token) || nominates(text::split(value, ','), token) by {
        connection_field_nominates_its_tokens(before.nominated, text::split(value, ','), token);
    }
}

/// A head that is no valid text is shown without fields and credentials.
pub proof fn invalid_text_shows_no_fields(
    raw: Seq<u8>,
    lists: Seq<Result<Seq<Seq<char>>, Seq<char>>>,
    credentials: CredentialFields,
)
    ensures
        parsed_head::parsed_head(raw, lists, credentials) matches Ok(shown) ==> {
            &&& shown.representable <==> vstd::utf8::valid_utf8(raw)
            &&& !shown.representable ==> shown.headers.len() == 0
                && shown.preserved_credential_headers.len() == 0
        },
        head::status_code(bytes::utf8_lossy(raw)) is None ==> parsed_head::parsed_head(
            raw,
            lists,
            credentials,
        ) == Err::<parsed_head::HeadModel, FieldFault>(FieldFault::StatusLine),
{
}

/// The status line is what stands before the first line ending, where it is valid
/// text.
pub proof fn status_line_ends_at_the_first_line_ending(front: Seq<u8>, rest: Seq<u8>)
    requires
        forall|i: int| 0 <= i < front.len() ==> #[trigger] front[i] != 13,
    ensures
        parsed_head::status_line(front + seq![13u8, 10u8] + rest) == if vstd::utf8::valid_utf8(
            front,
        ) {
            Ok::<Seq<char>, FieldFault>(vstd::utf8::decode_utf8(front))
        } else {
            Err(FieldFault::StatusLineEncoding)
        },
{
    let raw = front + seq![13u8, 10u8] + rest;
    let at = front.len() as int;
    bytes::lemma_first_match(raw, seq![13u8, 10u8], 0);
    assert(raw.subrange(at, at + 2) =~= seq![13u8, 10u8]);
    assert(bytes::matches_at(raw, seq![13u8, 10u8], at));
    if let Some(found) = bytes::first_match(raw, seq![13u8, 10u8], 0) {
        if found < at {
            assert(raw.subrange(found, found + 2)[0] == seq![13u8, 10u8][0]);
            assert(raw[found] == front[found]);
        }
        if at < found {
            assert(!bytes::matches_at(raw, seq![13u8, 10u8], at));
        }
    }
    assert(raw.take(at) =~= front);
}

/// A valid trailer that is not protected is taken with its name in lower case and
/// its value trimmed; a protected or nominated one is refused.
pub proof fn trailer_is_taken_or_refused(
    name: Seq<char>,
    value: Seq<char>,
    nominated: Seq<Seq<char>>,
    credentials: CredentialFields,
)
    requires
        is_valid_field(name, value),
    ensures
        output::trailer_field(
            output::utf8(name + seq![':'] + value),
            nominated,
            credentials,
        ) == if text::lowered(name) == "content-length"@ || head::is_hidden_field(name)
            || credentials.has_name(name) || nominated.contains(text::lowered(name)) {
            Err::<HeaderModel, FieldFault>(FieldFault::ProtectedTrailerField)
        } else {
            Ok(
                HeaderModel {
                    name: text::lowered(name),
                    value: text::trim(value, CharClass::WhiteSpace),
                },
            )
        },
{
    let line = name + seq![':'] + value;
    lemma_name_has_no_colon(name, value);
    vstd::utf8::encode_utf8_valid_utf8(line);
    vstd::utf8::encode_utf8_decode_utf8(line);
    assert(text::lowered(text::lowered(name)) =~= text::lowered(name));
    reveal_strlit("content-length");
    let word = "content-length"@;
    assert forall|i: int| 0 <= i < word.len() implies #[trigger] text::lowered(word)[i] == word[i] by {
        assert(word[i] == '-' || ('a' <= word[i] && word[i] <= 'z'));
    }
    assert(text::lowered(word) =~= word);
}

/// The values of the `Trailer` fields of a head are read line by line, in order. A
/// field of any other name, and a line that is no field, gives none.
pub proof fn trailer_fields_are_read_in_order(
    a: Seq<Seq<char>>,
    b: Seq<Seq<char>>,
    name: Seq<char>,
    value: Seq<char>,
    line: Seq<char>,
)
    requires
        forall|i: int| 0 <= i < name.len() ==> #[trigger] name[i] != ':',
        forall|i: int| 0 <= i < line.len() ==> #[trigger] line[i] != ':',
    ensures
        parsed_head::trailer_values(a + b) == parsed_head::trailer_values(a)
            + parsed_head::trailer_values(b),
        parsed_head::trailer_values(one_line(name + seq![':'] + value)) == if text::lowered(name)
            == "trailer"@ {
            seq![value]
        } else {
            Seq::empty()
        },
        parsed_head::trailer_values(one_line(line)) == Seq::<Seq<char>>::empty(),
    decreases b.len(),
{
    reveal_strlit("trailer");
    let word = "trailer"@;
    assert forall|i: int| 0 <= i < word.len() implies #[trigger] text::lowered(word)[i] == word[i] by {
        assert(!('A' <= word[i] && word[i] <= 'Z'));
    }
    assert(text::lowered(word) =~= word);
    let field = name + seq![':'] + value;
    text_laws::text_is_parted_at_its_separator(name, ':', value);
    assert(one_line(field).drop_last() =~= Seq::empty());
    assert(one_line(line).drop_last() =~= Seq::empty());
    assert(parsed_head::trailer_values(one_line(field).drop_last()) == Seq::<Seq<char>>::empty());
    text_laws::parts_make_up_the_text(line, ':');
    if let Some((before, after)) = text::split_once(line, ':') {
        assert(line[before.len() as int] == ':');
    }
    if b.len() > 0 {
        trailer_fields_are_read_in_order(a, b.drop_last(), name, value, line);
        assert((a + b).drop_last() =~= a + b.drop_last());
        assert((a + b).last() == b.last());
        let x = parsed_head::trailer_values(a);
        let y = parsed_head::trailer_values(b.drop_last());
        if let Some((n, v)) = text::split_once(b.last(), ':') {
            assert((x + y).push(v) =~= x + y.push(v));
        }
    } else {
        assert(a + b =~= a);
        assert(parsed_head::trailer_values(b) =~= Seq::empty());
        assert(parsed_head::trailer_values(a) + parsed_head::trailer_values(b)
            =~= parsed_head::trailer_values(a));
    }
}

/// A line by itself.
pub open spec fn one_line(line: Seq<char>) -> Seq<Seq<char>> {
    seq![line]
}

/// Whether a name is that of a token, in lower case.
pub open spec fn names_token(tokens: Seq<Seq<char>>, name: Seq<char>) -> bool {
    exists|i: int| 0 <= i < tokens.len() && text::lowered(#[trigger] tokens[i]) == name
}

/// A `Trailer` field declares each of its tokens, in lower case and once, and nothing
/// else; what was declared before stays.
pub proof fn trailer_field_declares_its_tokens(
    list: Seq<Seq<char>>,
    tokens: Seq<Seq<char>>,
    name: Seq<char>,
)
    ensures
        parsed_head::with_new(list, tokens).contains(name) <==> list.contains(name) || names_token(
            tokens,
            name,
        ),
        list.no_duplicates() ==> parsed_head::with_new(list, tokens).no_duplicates(),
    decreases tokens.len(),
{
    if tokens.len() > 0 {
        let front = tokens.drop_last();
        trailer_field_declares_its_tokens(list, front, name);
        let before = parsed_head::with_new(list, front);
        let token = text::lowered(tokens.last());
        if names_token(front, name) {
            let i = choose|i: int|
                0 <= i < front.len() && text::lowered(#[trigger] front[i]) == name;
            assert(tokens[i] == front[i]);
        }
        if names_token(tokens, name) {
            let i = choose|i: int|
                0 <= i < tokens.len() && text::lowered(#[trigger] tokens[i]) == name;
            if i < front.len() {
                assert(front[i] == tokens[i]);
            }
        }
        if token == name {
            assert(tokens[tokens.len() - 1] == tokens.last());
            assert(names_token(tokens, name));
        }
        let grown = before.push(token);
        if before.contains(name) {
            let k = choose|k: int| 0 <= k < before.len() && before[k] == name;
            assert(grown[k] == name);
        }
        if grown.contains(name) {
            let k = choose|k: int| 0 <= k < grown.len() && grown[k] == name;
            if k < before.len() {
                assert(before[k] == name);
            }
        }
        assert(grown[before.len() as int] == token);
    }
}

/// The tokens of a `Trailer` field come from the token list that was read for it:
/// the first field takes the first list, and each further field the next one. A list
/// that is none makes the head malformed.
pub proof fn trailer_field_takes_its_list(
    before: Scan,
    name: Seq<char>,
    value: Seq<char>,
    lists: Seq<Result<Seq<Seq<char>>, Seq<char>>>,
)
    requires
        is_valid_field(name, value),
        text::lowered(name) == "trailer"@,
        0 <= before.trailer_fields < lists.len(),
    ensures
        match lists[before.trailer_fields as int] {
            Ok(tokens) => parsed_head::scan_field(before, name, value, lists) matches Ok(after) && {
                &&& after.trailer_fields == before.trailer_fields + 1
                &&& after.nominated == before.nominated
                &&& after.trailers == parsed_head::with_new(before.trailers, tokens)
            },
            Err(detail) => parsed_head::scan_field(before, name, value, lists) == Err::<
                Scan,
                FieldFault,
            >(FieldFault::TokenList(detail)),
        },
{
    reveal_strlit("trailer");
    reveal_strlit("connection");
    let word = "trailer"@;
    let other = "connection"@;
    assert forall|i: int| 0 <= i < word.len() implies #[trigger] text::lowered(word)[i] == word[i] by {
        assert(!('A' <= word[i] && word[i] <= 'Z'));
    }
    assert(text::lowered(word) =~= word);
    assert(text::lowered(other).len() != word.len());
}

/// A head that declares a protected or nominated trailer anywhere in its list is
/// refused, and one that declares none is not.
pub proof fn protected_trailer_is_refused(
    a: Seq<Seq<char>>,
    b: Seq<Seq<char>>,
    one: Seq<char>,
    nominated: Seq<Seq<char>>,
    credentials: CredentialFields,
)
    ensures
        parsed_head::declares_protected(a + b, nominated, credentials)
            <==> parsed_head::declares_protected(a, nominated, credentials)
            || parsed_head::declares_protected(b, nominated, credentials),
        parsed_head::declares_protected(one_line(one), nominated, credentials)
            <==> head::is_protected_field(one, credentials) || nominated.contains(one),
        !parsed_head::declares_protected(Seq::empty(), nominated, credentials),
{
    let all = a + b;
    assert forall|i: int| 0 <= i < a.len() implies #[trigger] a[i] == all[i] by {}
    assert forall|i: int| 0 <= i < b.len() implies #[trigger] b[i] == all[i + a.len()] by {}
    assert forall|i: int| 0 <= i < all.len() implies (#[trigger] all[i]) == if i < a.len() {
        a[i]
    } else {
        b[i - a.len()]
    } by {}
    assert(one_line(one)[0] == one);
}

} // verus!
