//! What holds of the parts, lines and words of every text.

use crate::text;
use crate::text::CharClass;
use vstd::prelude::*;

verus! {

/// Whether a text holds no carriage return.
pub open spec fn is_one_line(s: Seq<char>) -> bool {
    forall|i: int| 0 <= i < s.len() ==> #[trigger] s[i] != '\r'
}

/// Lines, each with its line ending.
pub open spec fn ended(lines: Seq<Seq<char>>) -> Seq<char>
    decreases lines.len(),
{
    if lines.len() == 0 {
        Seq::empty()
    } else {
        ended(lines.drop_last()) + lines.last() + seq!['\r', '\n']
    }
}

proof fn lemma_parts_nonempty(s: Seq<char>)
    ensures
        text::split_crlf(s).len() > 0,
    decreases s.len(),
{
    if s.len() > 0 {
        lemma_parts_nonempty(s.drop_last());
    }
}

proof fn lemma_last_part_grows(s: Seq<char>, t: Seq<char>)
    requires
        is_one_line(t),
        s.len() == 0 || s.last() != '\r',
    ensures
        text::split_crlf(s + t) == text::split_crlf(s).drop_last().push(
            text::split_crlf(s).last() + t,
        ),
    decreases t.len(),
{
    lemma_parts_nonempty(s);
    let parts = text::split_crlf(s);
    if t.len() == 0 {
        assert(s + t == s);
        assert(parts.last() + t == parts.last());
        assert(parts.drop_last().push(parts.last()) == parts);
    } else {
        let front = t.drop_last();
        assert forall|i: int| 0 <= i < front.len() implies #[trigger] front[i] != '\r' by {
            assert(front[i] == t[i]);
        }
        lemma_last_part_grows(s, front);
        let all = s + t;
        assert(all.drop_last() == s + front);
        assert(all.last() == t.last());
        if all.len() > 1 {
            if front.len() > 0 {
                assert(all[all.len() - 2] == front.last());
                assert(front[front.len() - 1] == t[front.len() - 1]);
            } else {
                assert(all[all.len() - 2] == s.last());
            }
        }
        let before = parts.drop_last().push(parts.last() + front);
        assert(before.drop_last() == parts.drop_last());
        assert((parts.last() + front).push(t.last()) == parts.last() + t);
    }
}

/// A line ending ends a part, and an empty one begins.
pub proof fn line_ending_ends_a_part(s: Seq<char>)
    ensures
        text::split_crlf(s + seq!['\r', '\n']) == text::split_crlf(s).push(Seq::empty()),
{
    lemma_parts_nonempty(s);
    let all = s + seq!['\r', '\n'];
    let middle = s.push('\r');
    let parts = text::split_crlf(s);
    assert(all.drop_last() == middle);
    assert(middle.drop_last() == s);
    assert(all[all.len() - 2] == '\r');
    let grown = parts.drop_last().push(parts.last().push('\r'));
    assert(text::split_crlf(middle) == grown);
    assert(grown.drop_last() == parts.drop_last());
    assert(parts.last().push('\r').drop_last() == parts.last());
    assert(parts.drop_last().push(parts.last()) == parts);
}

/// Lines with their endings are split into just these lines and an empty rest.
pub proof fn ended_lines_are_split(lines: Seq<Seq<char>>)
    requires
        forall|i: int| 0 <= i < lines.len() ==> is_one_line(#[trigger] lines[i]),
    ensures
        text::split_crlf(ended(lines)) == lines.push(Seq::empty()),
    decreases lines.len(),
{
    if lines.len() == 0 {
        assert(lines.push(Seq::<char>::empty()) == seq![Seq::<char>::empty()]);
    } else {
        let before = lines.drop_last();
        assert forall|i: int| 0 <= i < before.len() implies is_one_line(#[trigger] before[i]) by {
            assert(before[i] == lines[i]);
        }
        ended_lines_are_split(before);
        let start = ended(before);
        lemma_ended_end(before);
        assert(is_one_line(lines[lines.len() - 1]));
        lemma_last_part_grows(start, lines.last());
        line_ending_ends_a_part(start + lines.last());
        assert(ended(lines) == start + lines.last() + seq!['\r', '\n']);
        let parts = before.push(Seq::<char>::empty());
        assert(parts.drop_last() == before);
        assert(Seq::<char>::empty() + lines.last() == lines.last());
        assert(before.push(lines.last()) == lines);
    }
}

proof fn lemma_ended_end(lines: Seq<Seq<char>>)
    ensures
        ended(lines).len() == 0 || ended(lines).last() == '\n',
{
    if lines.len() > 0 {
        assert(ended(lines).last() == seq!['\r', '\n'][1]);
    }
}

/// Lines with their endings follow one another.
pub proof fn ended_lines_follow(a: Seq<Seq<char>>, b: Seq<Seq<char>>)
    ensures
        ended(a + b) == ended(a) + ended(b),
    decreases b.len(),
{
    if b.len() > 0 {
        ended_lines_follow(a, b.drop_last());
        assert((a + b).drop_last() == a + b.drop_last());
        assert((a + b).last() == b.last());
        assert(ended(a + b) == ended(a) + ended(b));
    } else {
        assert(a + b == a);
        assert(ended(a) + ended(b) == ended(a));
    }
}

/// A text is parted at its first separator: what stands before holds none, and
/// the two parts with a separator between them are the text again.
pub proof fn parts_make_up_the_text(s: Seq<char>, separator: char)
    ensures
        match text::split_once(s, separator) {
            Some((before, after)) => before + seq![separator] + after == s && forall|i: int|
                0 <= i < before.len() ==> #[trigger] before[i] != separator,
            None => forall|i: int| 0 <= i < s.len() ==> #[trigger] s[i] != separator,
        },
{
    text::lemma_find(s, separator);
    if let Some((before, after)) = text::split_once(s, separator) {
        assert(before + seq![separator] + after =~= s);
    }
}

/// A text of a part without a separator, the separator, and anything behind it is
/// parted there.
pub proof fn text_is_parted_at_its_separator(
    before: Seq<char>,
    separator: char,
    after: Seq<char>,
)
    requires
        forall|i: int| 0 <= i < before.len() ==> #[trigger] before[i] != separator,
    ensures
        text::split_once(before + seq![separator] + after, separator) == Some((before, after)),
        text::before_first(before + seq![separator] + after, separator) == before,
        text::before_first(before, separator) == before,
{
    let s = before + seq![separator] + after;
    text::lemma_find(s, separator);
    text::lemma_find(before, separator);
    let at = text::find(s, separator);
    assert(s[before.len() as int] == separator);
    if at < before.len() {
        assert(s[at] == before[at]);
    }
    assert(at == before.len());
    assert(s.take(at) == before);
    assert(s.skip(at + 1) == after);
    assert(before.take(before.len() as int) == before);
}

/// The parts between separators, joined by separators, are the text again, and
/// none of them holds a separator.
pub proof fn parts_between_separators(s: Seq<char>, separator: char)
    ensures
        text::join(text::split(s, separator), seq![separator]) == s,
        text::split(s, separator).len() > 0,
        forall|i: int, k: int|
            0 <= i < text::split(s, separator).len() && 0 <= k < text::split(s, separator)[i].len()
                ==> #[trigger] text::split(s, separator)[i][k] != separator,
    decreases s.len(),
{
    if s.len() == 0 {
        assert(text::split(s, separator) == seq![Seq::<char>::empty()]);
        assert(s == Seq::<char>::empty());
    } else {
        let front = s.drop_last();
        parts_between_separators(front, separator);
        let parts = text::split(front, separator);
        let all = text::split(s, separator);
        assert(front.push(s.last()) == s);
        if s.last() == separator {
            assert(all == parts.push(Seq::empty()));
            assert(all.drop_last() == parts);
            assert(text::join(all, seq![separator]) == front + seq![separator]
                + Seq::<char>::empty());
            assert(front + seq![separator] + Seq::<char>::empty() == s);
            assert forall|i: int, k: int|
                0 <= i < all.len() && 0 <= k < all[i].len() implies #[trigger] all[i][k]
                != separator by {
                if i < parts.len() {
                    assert(all[i] == parts[i]);
                }
            }
        } else {
            let last = parts.last().push(s.last());
            assert(all == parts.drop_last().push(last));
            assert(all.drop_last() == parts.drop_last());
            if parts.len() == 1 {
                assert(text::join(all, seq![separator]) == last);
                assert(text::join(parts, seq![separator]) == parts[0]);
                assert(last == s);
            } else {
                let earlier = text::join(parts.drop_last(), seq![separator]);
                assert(text::join(parts, seq![separator]) == earlier + seq![separator]
                    + parts.last());
                assert(text::join(all, seq![separator]) == earlier + seq![separator] + last);
                assert(earlier + seq![separator] + last == (earlier + seq![separator]
                    + parts.last()).push(s.last()));
            }
            assert forall|i: int, k: int|
                0 <= i < all.len() && 0 <= k < all[i].len() implies #[trigger] all[i][k]
                != separator by {
                if i < parts.len() - 1 {
                    assert(all[i] == parts[i]);
                } else if k < parts.last().len() {
                    assert(all[i][k] == parts[i][k]);
                }
            }
        }
    }
}

/// Trimming takes characters of the class from both ends and nothing else: what
/// is left neither begins nor ends with one.
pub proof fn trimming_takes_the_ends(s: Seq<char>, class: CharClass)
    ensures
        exists|front: int, back: int|
            #![trigger s.subrange(front, back)]
            0 <= front <= back <= s.len() && text::trim(s, class) == s.subrange(front, back)
                && (forall|i: int| 0 <= i < front ==> class.has(#[trigger] s[i])) && forall|i: int|
                back <= i < s.len() ==> class.has(#[trigger] s[i]),
        text::trim(s, class).len() > 0 ==> !class.has(text::trim(s, class)[0]) && !class.has(
            text::trim(s, class).last(),
        ),
{
    let front = lemma_trim_start(s, class);
    let rest = text::trim_start(s, class);
    let end = lemma_trim_end(rest, class);
    let back = front + end;
    let trimmed = text::trim(s, class);
    assert(trimmed == s.subrange(front, back));
    assert forall|i: int| back <= i < s.len() implies class.has(#[trigger] s[i]) by {
        assert(rest[i - front] == s[i]);
    }
    if trimmed.len() > 0 {
        assert(trimmed[0] == rest[0]);
    }
}

proof fn lemma_trim_start(s: Seq<char>, class: CharClass) -> (at: int)
    ensures
        0 <= at <= s.len(),
        text::trim_start(s, class) == s.skip(at),
        forall|i: int| 0 <= i < at ==> class.has(#[trigger] s[i]),
        at < s.len() ==> !class.has(s[at]),
    decreases s.len(),
{
    if s.len() > 0 && class.has(s[0]) {
        let rest = s.skip(1);
        let at = lemma_trim_start(rest, class);
        assert(rest.skip(at) == s.skip(at + 1));
        assert forall|i: int| 0 <= i < at + 1 implies class.has(#[trigger] s[i]) by {
            if i > 0 {
                assert(rest[i - 1] == s[i]);
            }
        }
        at + 1
    } else {
        assert(s.skip(0) == s);
        0
    }
}

proof fn lemma_trim_end(s: Seq<char>, class: CharClass) -> (end: int)
    ensures
        0 <= end <= s.len(),
        text::trim_end(s, class) == s.take(end),
        forall|i: int| end <= i < s.len() ==> class.has(#[trigger] s[i]),
        end > 0 ==> !class.has(s[end - 1]),
    decreases s.len(),
{
    if s.len() > 0 && class.has(s.last()) {
        let rest = s.drop_last();
        let end = lemma_trim_end(rest, class);
        assert(rest.take(end) == s.take(end));
        assert forall|i: int| end <= i < s.len() implies class.has(#[trigger] s[i]) by {
            if i < rest.len() {
                assert(rest[i] == s[i]);
            }
        }
        end
    } else {
        assert(s.take(s.len() as int) == s);
        s.len() as int
    }
}

/// The parts of two texts with a separator between them are the parts of the one
/// and then those of the other.
pub proof fn parts_follow(a: Seq<char>, separator: char, b: Seq<char>)
    ensures
        text::split(a + seq![separator] + b, separator) == text::split(a, separator) + text::split(
            b,
            separator,
        ),
    decreases b.len(),
{
    let all = a + seq![separator] + b;
    let x = text::split(a, separator);
    text::lemma_split_nonempty(a, separator);
    if b.len() == 0 {
        assert(all.drop_last() == a);
        assert(text::split(b, separator) == seq![Seq::<char>::empty()]);
        assert(x.push(Seq::empty()) == x + seq![Seq::<char>::empty()]);
    } else {
        let front = b.drop_last();
        parts_follow(a, separator, front);
        text::lemma_split_nonempty(front, separator);
        let y = text::split(front, separator);
        assert(all.drop_last() == a + seq![separator] + front);
        assert(all.last() == b.last());
        assert((x + y).push(Seq::empty()) == x + y.push(Seq::empty()));
        assert((x + y).drop_last() == x + y.drop_last());
        assert((x + y).last() == y.last());
        assert((x + y.drop_last()).push(y.last().push(b.last())) == x + y.drop_last().push(
            y.last().push(b.last()),
        ));
    }
}

/// A text without a separator is one part.
pub proof fn text_without_separator_is_one_part(s: Seq<char>, separator: char)
    requires
        forall|i: int| 0 <= i < s.len() ==> #[trigger] s[i] != separator,
    ensures
        text::split(s, separator) == seq![s],
    decreases s.len(),
{
    if s.len() > 0 {
        let front = s.drop_last();
        assert forall|i: int| 0 <= i < front.len() implies #[trigger] front[i] != separator by {
            assert(front[i] == s[i]);
        }
        text_without_separator_is_one_part(front, separator);
        assert(s[s.len() - 1] != separator);
        assert(front.push(s.last()) == s);
        assert(seq![front].drop_last().push(seq![front].last().push(s.last())) == seq![s]);
    } else {
        assert(s == Seq::<char>::empty());
    }
}

/// Whether a text holds neither a carriage return nor a line feed.
pub open spec fn is_plain_line(s: Seq<char>) -> bool {
    forall|i: int| 0 <= i < s.len() ==> #[trigger] s[i] != '\r' && s[i] != '\n'
}

proof fn lemma_ended_parts(lines: Seq<Seq<char>>)
    requires
        forall|i: int| 0 <= i < lines.len() ==> is_plain_line(#[trigger] lines[i]),
    ensures
        text::split(ended(lines), '\n') == lines.map_values(|l: Seq<char>| l.push('\r')).push(
            Seq::empty(),
        ),
    decreases lines.len(),
{
    let f = |l: Seq<char>| l.push('\r');
    if lines.len() == 0 {
        assert(lines.map_values(f).push(Seq::empty()) == seq![Seq::<char>::empty()]);
    } else {
        let before = lines.drop_last();
        assert forall|i: int| 0 <= i < before.len() implies is_plain_line(#[trigger] before[i]) by {
            assert(before[i] == lines[i]);
        }
        lemma_ended_parts(before);
        assert(is_plain_line(lines[lines.len() - 1]));
        let last = lines.last().push('\r');
        assert forall|i: int| 0 <= i < last.len() implies #[trigger] last[i] != '\n' by {
            if i < lines.last().len() {
                assert(last[i] == lines.last()[i]);
            }
        }
        text_without_separator_is_one_part(last, '\n');
        let start = ended(before);
        let rows = before.map_values(f);
        assert(lines.map_values(f) == rows.push(last));
        parts_follow(last, '\n', Seq::empty());
        assert(last + seq!['\n'] + Seq::<char>::empty() == last.push('\n'));
        assert(text::split(Seq::<char>::empty(), '\n') == seq![Seq::<char>::empty()]);
        if before.len() == 0 {
            assert(start == Seq::<char>::empty());
            assert(ended(lines) == last.push('\n'));
            assert(rows == Seq::<Seq<char>>::empty());
            assert(rows.push(last).push(Seq::empty()) == seq![last] + seq![Seq::<char>::empty()]);
        } else {
            lemma_ended_end(before);
            assert(start.len() > 0);
            let front = start.drop_last();
            assert(start == front.push('\n'));
            assert(front + seq!['\n'] + Seq::<char>::empty() == start);
            parts_follow(front, '\n', Seq::empty());
            assert(text::split(front, '\n') + seq![Seq::<char>::empty()] == rows.push(Seq::empty()));
            assert(text::split(front, '\n') == (text::split(front, '\n') + seq![
                Seq::<char>::empty(),
            ]).drop_last());
            assert(rows.push(Seq::<char>::empty()).drop_last() == rows);
            assert(text::split(front, '\n') == rows);
            parts_follow(front, '\n', last.push('\n'));
            assert(ended(lines) == front + seq!['\n'] + last.push('\n'));
            assert(rows + (seq![last] + seq![Seq::<char>::empty()]) == rows.push(last).push(
                Seq::empty(),
            ));
        }
    }
}

/// The lines of lines with their endings are just these lines.
pub proof fn ended_lines_read_back(lines: Seq<Seq<char>>)
    requires
        forall|i: int| 0 <= i < lines.len() ==> is_plain_line(#[trigger] lines[i]),
    ensures
        text::lines(ended(lines)) == lines,
{
    lemma_ended_parts(lines);
    let f = |l: Seq<char>| l.push('\r');
    let rows = lines.map_values(f);
    let parts = rows.push(Seq::<char>::empty());
    assert(parts.drop_last() == rows);
    assert forall|i: int| 0 <= i < lines.len() implies #[trigger] text::without_return(rows[i])
        == lines[i] by {
        assert(rows[i] == lines[i].push('\r'));
        assert(lines[i].push('\r').drop_last() == lines[i]);
    }
    assert(rows.map_values(|line: Seq<char>| text::without_return(line)) =~= lines);
}

/// The words of two texts with white space between them are the words of the one
/// and then those of the other.
pub proof fn words_follow(a: Seq<char>, c: char, b: Seq<char>)
    requires
        text::is_white_space(c),
    ensures
        text::words(a + seq![c] + b) == text::words(a) + text::words(b),
    decreases b.len(),
{
    let all = a + seq![c] + b;
    let x = text::words(a);
    if b.len() == 0 {
        assert(all.drop_last() == a);
        assert(all.last() == c);
        assert(text::words(b) == Seq::<Seq<char>>::empty());
        assert(x + text::words(b) == x);
    } else {
        let front = b.drop_last();
        words_follow(a, c, front);
        let y = text::words(front);
        assert(all.drop_last() == a + seq![c] + front);
        assert(all.last() == b.last());
        if !text::is_white_space(b.last()) {
            if front.len() > 0 {
                assert(all[all.len() - 2] == front.last());
                assert(b[b.len() - 2] == front.last());
                if !text::is_white_space(front.last()) {
                    lemma_open_word(front);
                    assert((x + y).drop_last() == x + y.drop_last());
                    assert((x + y).last() == y.last());
                    assert((x + y.drop_last()).push(y.last().push(b.last())) == x + y.drop_last().push(
                        y.last().push(b.last()),
                    ));
                } else {
                    assert((x + y).push(seq![b.last()]) == x + y.push(seq![b.last()]));
                }
            } else {
                assert(all[all.len() - 2] == c);
                assert((x + y).push(seq![b.last()]) == x + y.push(seq![b.last()]));
            }
        }
    }
}

proof fn lemma_open_word(s: Seq<char>)
    requires
        s.len() > 0,
        !text::is_white_space(s.last()),
    ensures
        text::words(s).len() > 0,
{
}

/// Whether a text is one word.
pub open spec fn is_one_word(s: Seq<char>) -> bool {
    s.len() > 0 && forall|i: int| 0 <= i < s.len() ==> !text::is_white_space(#[trigger] s[i])
}

/// A text without white space is one word.
pub proof fn text_without_white_space_is_one_word(s: Seq<char>)
    requires
        is_one_word(s),
    ensures
        text::words(s) == seq![s],
    decreases s.len(),
{
    assert(!text::is_white_space(s[s.len() - 1]));
    if s.len() > 1 {
        let front = s.drop_last();
        assert forall|i: int| 0 <= i < front.len() implies !text::is_white_space(
            #[trigger] front[i],
        ) by {
            assert(front[i] == s[i]);
        }
        text_without_white_space_is_one_word(front);
        assert(!text::is_white_space(s[s.len() - 2]));
        assert(front.push(s.last()) == s);
        assert(seq![front].drop_last().push(seq![front].last().push(s.last())) == seq![s]);
    } else {
        assert(s.drop_last() == Seq::<char>::empty());
        assert(text::words(Seq::<char>::empty()) == Seq::<Seq<char>>::empty());
        assert(seq![s.last()] == s);
        assert(Seq::<Seq<char>>::empty().push(s) == seq![s]);
    }
}

/// Only the ASCII letters change in lower case, each to its small letter.
pub proof fn lower_case_changes_letters_alone(s: Seq<char>, t: Seq<char>, i: int)
    requires
        0 <= i < s.len(),
    ensures
        text::lowered(s).len() == s.len(),
        text::lowered(s)[i] as u32 == if 65 <= s[i] as u32 <= 90 {
            s[i] as u32 + 32
        } else {
            s[i] as u32 as int
        },
        text::lowered(s + t) == text::lowered(s) + text::lowered(t),
        text::lowered(text::lowered(s)) == text::lowered(s),
{
    assert(text::lowered(s + t) =~= text::lowered(s) + text::lowered(t));
    assert(text::lowered(text::lowered(s)) =~= text::lowered(s));
}

/// Joined texts follow one another with the separator between them.
pub proof fn joined_texts_follow(list: Seq<Seq<char>>, more: Seq<char>, separator: Seq<char>)
    ensures
        text::join(list.push(more), separator) == if list.len() == 0 {
            more
        } else {
            text::join(list, separator) + separator + more
        },
{
    assert(list.push(more).drop_last() == list);
}

} // verus!
