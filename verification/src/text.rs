//! Text operations on strings, stated over sequences of characters.

use vstd::prelude::*;

verus! {

/// `String::push` appends the given character to the end of the string.
pub assume_specification[ std::string::String::push ](receiver: &mut std::string::String, c: char)
    ensures
        final(receiver)@ == old(receiver)@.push(c),
;

/// The contents of a list of strings.
pub open spec fn texts(list: Seq<String>) -> Seq<Seq<char>> {
    list.map_values(|s: String| s@)
}

/// The characters of `s`.
pub fn chars_of(s: &str) -> (chars: Vec<char>)
    ensures
        chars@ == s@,
{
    let mut chars: Vec<char> = Vec::new();
    for c in iter: s.chars()
        invariant
            iter.seq() == s@,
            chars@ == iter.seq().take(iter.index()),
    {
        chars.push(c);
        assert(chars@ == iter.seq().take(iter.index() + 1));
    }
    chars
}

/// The string of the characters of `chars` from `start` up to `end`.
pub fn string_of(chars: &[char], start: usize, end: usize) -> (s: String)
    requires
        start <= end <= chars@.len(),
    ensures
        s@ == chars@.subrange(start as int, end as int),
{
    let mut s = String::new();
    let mut i: usize = start;
    while i < end
        invariant
            start <= i <= end <= chars@.len(),
            s@ == chars@.subrange(start as int, i as int),
        decreases end - i,
    {
        s.push(chars[i]);
        i += 1;
        assert(s@ == chars@.subrange(start as int, i as int));
    }
    s
}

/// Whether two strings hold the same characters.
pub fn same(a: &str, b: &str) -> (equal: bool)
    ensures
        equal == (a@ == b@),
{
    let x = chars_of(a);
    let y = chars_of(b);
    if x.len() != y.len() {
        return false;
    }
    let mut i: usize = 0;
    while i < x.len()
        invariant
            i <= x@.len(),
            x@.len() == y@.len(),
            x@ == a@,
            y@ == b@,
            forall|k: int| 0 <= k < i ==> x@[k] == y@[k],
        decreases x@.len() - i,
    {
        if x[i] != y[i] {
            return false;
        }
        i += 1;
    }
    assert(x@ == y@);
    true
}

/// The ASCII lower case of a character; every other character is itself.
pub open spec fn lower(c: char) -> char {
    if 'A' <= c && c <= 'Z' {
        (c as u32 + 32) as char
    } else {
        c
    }
}

/// A text with its ASCII letters in lower case.
pub open spec fn lowered(s: Seq<char>) -> Seq<char> {
    s.map_values(|c: char| lower(c))
}

fn lower_char(c: char) -> (r: char)
    ensures
        r == lower(c),
{
    if 'A' <= c && c <= 'Z' {
        (c as u8 + 32) as char
    } else {
        c
    }
}

/// The string with its ASCII letters in lower case.
pub fn to_lower(s: &str) -> (r: String)
    ensures
        r@ == lowered(s@),
{
    let mut r = String::new();
    for c in iter: s.chars()
        invariant
            iter.seq() == s@,
            r@ == lowered(iter.seq().take(iter.index())),
    {
        r.push(lower_char(c));
        assert(r@ == lowered(iter.seq().take(iter.index() + 1)));
    }
    assert(s@.take(s@.len() as int) == s@);
    r
}

/// Whether two strings are equal up to the case of ASCII letters.
pub fn same_ignoring_case(a: &str, b: &str) -> (equal: bool)
    ensures
        equal == (lowered(a@) == lowered(b@)),
{
    same(to_lower(a).as_str(), to_lower(b).as_str())
}

/// Sets of characters that are removed from the ends of a text.
#[derive(Debug, Clone, Copy, PartialEq, Eq, Structural)]
pub enum CharClass {
    /// Unicode white space.
    WhiteSpace,
    /// Space and horizontal tab.
    Horizontal,
    /// The full stop.
    Dot,
}

/// Whether a character has the Unicode `White_Space` property.
pub open spec fn is_white_space(c: char) -> bool {
    ||| '\u{9}' <= c && c <= '\u{d}'
    ||| c == ' '
    ||| c == '\u{85}'
    ||| c == '\u{a0}'
    ||| c == '\u{1680}'
    ||| '\u{2000}' <= c && c <= '\u{200a}'
    ||| c == '\u{2028}'
    ||| c == '\u{2029}'
    ||| c == '\u{202f}'
    ||| c == '\u{205f}'
    ||| c == '\u{3000}'
}

fn white_space(c: char) -> (r: bool)
    ensures
        r == is_white_space(c),
{
    ('\u{9}' <= c && c <= '\u{d}') || c == ' ' || c == '\u{85}' || c == '\u{a0}' || c == '\u{1680}' || (
    '\u{2000}' <= c && c <= '\u{200a}') || c == '\u{2028}' || c == '\u{2029}' || c == '\u{202f}' || c
        == '\u{205f}' || c == '\u{3000}'
}

impl CharClass {
    /// Whether `c` belongs to the class.
    pub open spec fn has(self, c: char) -> bool {
        match self {
            CharClass::WhiteSpace => is_white_space(c),
            CharClass::Horizontal => c == ' ' || c == '\t',
            CharClass::Dot => c == '.',
        }
    }

    fn holds(self, c: char) -> (r: bool)
        ensures
            r == self.has(c),
    {
        match self {
            CharClass::WhiteSpace => white_space(c),
            CharClass::Horizontal => c == ' ' || c == '\t',
            CharClass::Dot => c == '.',
        }
    }
}

/// `s` without its leading characters of `class`.
pub open spec fn trim_start(s: Seq<char>, class: CharClass) -> Seq<char>
    decreases s.len(),
{
    if s.len() > 0 && class.has(s[0]) {
        trim_start(s.skip(1), class)
    } else {
        s
    }
}

/// `s` without its trailing characters of `class`.
pub open spec fn trim_end(s: Seq<char>, class: CharClass) -> Seq<char>
    decreases s.len(),
{
    if s.len() > 0 && class.has(s.last()) {
        trim_end(s.drop_last(), class)
    } else {
        s
    }
}

/// `s` without its leading and trailing characters of `class`.
pub open spec fn trim(s: Seq<char>, class: CharClass) -> Seq<char> {
    trim_end(trim_start(s, class), class)
}

/// The part of `chars` from `start` on, without its trailing characters of `class`.
fn trimmed_tail(chars: &Vec<char>, start: usize, class: CharClass) -> (r: String)
    requires
        start <= chars@.len(),
    ensures
        r@ == trim_end(chars@.skip(start as int), class),
{
    let mut end: usize = chars.len();
    assert(chars@.subrange(start as int, end as int) == chars@.skip(start as int));
    while end > start && class.holds(chars[end - 1])
        invariant
            start <= end <= chars@.len(),
            trim_end(chars@.subrange(start as int, end as int), class) == trim_end(
                chars@.skip(start as int),
                class,
            ),
        decreases end,
    {
        assert(chars@.subrange(start as int, end as int).drop_last() == chars@.subrange(
            start as int,
            end - 1,
        ));
        end -= 1;
    }
    string_of(chars.as_slice(), start, end)
}

/// Removes the leading and trailing characters of `class`.
pub fn trimmed(s: &str, class: CharClass) -> (r: String)
    ensures
        r@ == trim(s@, class),
{
    let chars = chars_of(s);
    let mut start: usize = 0;
    assert(s@.skip(0) == s@);
    while start < chars.len() && class.holds(chars[start])
        invariant
            start <= chars@.len(),
            chars@ == s@,
            trim_start(chars@.skip(start as int), class) == trim_start(s@, class),
        decreases chars@.len() - start,
    {
        assert(chars@.skip(start as int).skip(1) == chars@.skip(start + 1));
        start += 1;
    }
    trimmed_tail(&chars, start, class)
}

/// Removes the trailing characters of `class`.
pub fn trimmed_end(s: &str, class: CharClass) -> (r: String)
    ensures
        r@ == trim_end(s@, class),
{
    let chars = chars_of(s);
    assert(chars@.skip(0) == s@);
    trimmed_tail(&chars, 0, class)
}

/// The parts of `s` between the occurrences of `separator`.
pub open spec fn split(s: Seq<char>, separator: char) -> Seq<Seq<char>>
    decreases s.len(),
{
    if s.len() == 0 {
        seq![Seq::<char>::empty()]
    } else {
        let parts = split(s.drop_last(), separator);
        if s.last() == separator {
            parts.push(Seq::empty())
        } else {
            parts.drop_last().push(parts.last().push(s.last()))
        }
    }
}

/// A text has at least one part.
pub proof fn lemma_split_nonempty(s: Seq<char>, separator: char)
    ensures
        split(s, separator).len() > 0,
    decreases s.len(),
{
    if s.len() > 0 {
        lemma_split_nonempty(s.drop_last(), separator);
    }
}

/// Splits a string at every occurrence of `separator`.
pub fn split_parts(s: &str, separator: char) -> (parts: Vec<String>)
    ensures
        texts(parts@) == split(s@, separator),
{
    let mut parts: Vec<String> = Vec::new();
    let mut current = String::new();
    assert(texts(parts@).push(current@) == split(s@.take(0), separator));
    for c in iter: s.chars()
        invariant
            iter.seq() == s@,
            texts(parts@).push(current@) == split(s@.take(iter.index()), separator),
    {
        let ghost before = texts(parts@).push(current@);
        proof {
            let t = s@.take(iter.index() + 1);
            assert(t.drop_last() == s@.take(iter.index()));
            assert(t.last() == c);
            assert(before.drop_last() == texts(parts@));
        }
        if c == separator {
            let ghost finished = texts(parts@).push(current@);
            parts.push(current);
            assert(texts(parts@) == finished);
            current = String::new();
            assert(current@ == Seq::<char>::empty());
        } else {
            current.push(c);
        }
    }
    assert(s@.take(s@.len() as int) == s@);
    let ghost finished = texts(parts@).push(current@);
    parts.push(current);
    assert(texts(parts@) == finished);
    parts
}

/// The position of the first `c` in `s`, or the length of `s`.
pub open spec fn find(s: Seq<char>, c: char) -> int
    decreases s.len(),
{
    if s.len() == 0 || s[0] == c {
        0
    } else {
        1 + find(s.skip(1), c)
    }
}

/// The position of the first `c` lies in the text or at its end, and no `c` stands before it.
pub proof fn lemma_find(s: Seq<char>, c: char)
    ensures
        0 <= find(s, c) <= s.len(),
        find(s, c) < s.len() ==> s[find(s, c)] == c,
        forall|i: int| 0 <= i < find(s, c) ==> s[i] != c,
    decreases s.len(),
{
    if s.len() > 0 && s[0] != c {
        lemma_find(s.skip(1), c);
        assert forall|i: int| 0 <= i < find(s, c) implies s[i] != c by {
            if i > 0 {
                assert(s[i] == s.skip(1)[i - 1]);
            }
        }
    }
}

/// The texts before and after the first `separator`, where there is one.
pub open spec fn split_once(s: Seq<char>, separator: char) -> Option<(Seq<char>, Seq<char>)> {
    let at = find(s, separator);
    if at < s.len() {
        Some((s.take(at), s.skip(at + 1)))
    } else {
        None
    }
}

fn find_char(chars: &Vec<char>, c: char) -> (at: usize)
    ensures
        at == find(chars@, c),
        at <= chars@.len(),
{
    let mut at: usize = 0;
    assert(chars@.skip(0) == chars@);
    while at < chars.len() && chars[at] != c
        invariant
            at <= chars@.len(),
            find(chars@, c) == at + find(chars@.skip(at as int), c),
        decreases chars@.len() - at,
    {
        assert(chars@.skip(at as int).skip(1) == chars@.skip(at + 1));
        at += 1;
    }
    at
}

/// Splits a string at the first `separator`.
pub fn split_at_first(s: &str, separator: char) -> (r: Option<(String, String)>)
    ensures
        r is Some <==> split_once(s@, separator) is Some,
        r matches Some(pair) ==> split_once(s@, separator) == Some((pair.0@, pair.1@)),
{
    let chars = chars_of(s);
    let at = find_char(&chars, separator);
    if at < chars.len() {
        let before = string_of(chars.as_slice(), 0, at);
        let after = string_of(chars.as_slice(), at + 1, chars.len());
        assert(before@ == s@.take(at as int));
        assert(after@ == s@.skip(at + 1));
        Some((before, after))
    } else {
        None
    }
}

/// The text before the first `separator`, or the whole text without one.
pub open spec fn before_first(s: Seq<char>, separator: char) -> Seq<char> {
    s.take(find(s, separator))
}

/// The part of a string before the first `separator`.
pub fn part_before(s: &str, separator: char) -> (r: String)
    ensures
        r@ == before_first(s@, separator),
{
    let chars = chars_of(s);
    let at = find_char(&chars, separator);
    let r = string_of(chars.as_slice(), 0, at);
    assert(r@ == s@.take(at as int));
    r
}

/// A text without one trailing carriage return.
pub open spec fn without_return(s: Seq<char>) -> Seq<char> {
    if s.len() > 0 && s.last() == '\r' {
        s.drop_last()
    } else {
        s
    }
}

/// The lines of a text: what stands between line feeds, each line feed taking
/// a carriage return before it along, without an empty last line.
pub open spec fn lines(s: Seq<char>) -> Seq<Seq<char>> {
    let parts = split(s, '\n');
    let ended = parts.drop_last().map_values(|line: Seq<char>| without_return(line));
    if parts.last().len() == 0 {
        ended
    } else {
        ended.push(parts.last())
    }
}

fn drop_return(s: &str) -> (r: String)
    ensures
        r@ == without_return(s@),
{
    let chars = chars_of(s);
    let n: usize = chars.len();
    if n > 0 && chars[n - 1] == '\r' {
        let r = string_of(chars.as_slice(), 0, n - 1);
        assert(r@ == s@.drop_last());
        r
    } else {
        let r = string_of(chars.as_slice(), 0, n);
        assert(r@ == s@);
        r
    }
}

/// The lines of a string.
pub fn lines_of(s: &str) -> (result: Vec<String>)
    ensures
        texts(result@) == lines(s@),
{
    let parts = split_parts(s, '\n');
    proof {
        lemma_split_nonempty(s@, '\n');
    }
    let ghost all = split(s@, '\n');
    let ghost ended = all.drop_last().map_values(|line: Seq<char>| without_return(line));
    let mut result: Vec<String> = Vec::new();
    let mut i: usize = 0;
    assert(parts@.len() == all.len());
    while i < parts.len() - 1
        invariant
            i <= parts@.len() - 1,
            texts(parts@) == all,
            ended == all.drop_last().map_values(|line: Seq<char>| without_return(line)),
            texts(result@) == ended.take(i as int),
        decreases parts@.len() - i,
    {
        let line = drop_return(parts[i].as_str());
        assert(parts@[i as int]@ == all[i as int]);
        assert(ended.take(i as int).push(line@) == ended.take(i + 1));
        let ghost before = texts(result@);
        result.push(line);
        assert(texts(result@) == before.push(line@));
        i += 1;
    }
    assert(ended.take(ended.len() as int) == ended);
    assert(parts@[i as int]@ == all.last());
    let last = parts[i].clone();
    if chars_of(last.as_str()).len() > 0 {
        let ghost before = texts(result@);
        result.push(last);
        assert(texts(result@) == before.push(last@));
    }
    result
}

/// The words of a text: its longest parts without white space.
pub open spec fn words(s: Seq<char>) -> Seq<Seq<char>>
    decreases s.len(),
{
    if s.len() == 0 {
        seq![]
    } else {
        let rest = words(s.drop_last());
        if is_white_space(s.last()) {
            rest
        } else if s.len() > 1 && !is_white_space(s[s.len() - 2]) {
            rest.drop_last().push(rest.last().push(s.last()))
        } else {
            rest.push(seq![s.last()])
        }
    }
}

/// The words of a string.
pub fn words_of(s: &str) -> (result: Vec<String>)
    ensures
        texts(result@) == words(s@),
{
    let mut result: Vec<String> = Vec::new();
    let mut current = String::new();
    let mut open: bool = false;
    assert(texts(result@) == words(s@.take(0)));
    for c in iter: s.chars()
        invariant
            iter.seq() == s@,
            open == (iter.index() > 0 && !is_white_space(s@[iter.index() - 1])),
            !open ==> current@.len() == 0,
            words(s@.take(iter.index())) == if open {
                texts(result@).push(current@)
            } else {
                texts(result@)
            },
    {
        proof {
            let t = s@.take(iter.index() + 1);
            assert(t.drop_last() == s@.take(iter.index()));
            assert(t.last() == c);
            if iter.index() > 0 {
                assert(t[t.len() - 2] == s@[iter.index() - 1]);
            }
            assert(texts(result@).push(current@).drop_last() == texts(result@));
        }
        if white_space(c) {
            if open {
                let ghost finished = texts(result@).push(current@);
                result.push(current);
                assert(texts(result@) == finished);
                current = String::new();
                open = false;
            }
        } else {
            current.push(c);
            assert(!open ==> current@ == seq![c]);
            open = true;
        }
    }
    assert(s@.take(s@.len() as int) == s@);
    if open {
        let ghost finished = texts(result@).push(current@);
        result.push(current);
        assert(texts(result@) == finished);
    }
    result
}

/// The parts of `s` between its line endings of a carriage return and a line
/// feed.
pub open spec fn split_crlf(s: Seq<char>) -> Seq<Seq<char>>
    decreases s.len(),
{
    if s.len() == 0 {
        seq![Seq::<char>::empty()]
    } else {
        let parts = split_crlf(s.drop_last());
        if s.last() == '\n' && s.len() > 1 && s[s.len() - 2] == '\r' {
            parts.drop_last().push(parts.last().drop_last()).push(Seq::empty())
        } else {
            parts.drop_last().push(parts.last().push(s.last()))
        }
    }
}

/// Splits a string at every carriage return that a line feed follows.
pub fn split_crlf_parts(s: &str) -> (parts: Vec<String>)
    ensures
        texts(parts@) == split_crlf(s@),
{
    let mut parts: Vec<String> = Vec::new();
    let mut current: Vec<char> = Vec::new();
    let mut returned: bool = false;
    assert(texts(parts@).push(current@) == split_crlf(s@.take(0)));
    for c in iter: s.chars()
        invariant
            iter.seq() == s@,
            returned == (iter.index() > 0 && s@[iter.index() - 1] == '\r'),
            returned ==> current@.len() > 0 && current@.last() == '\r',
            texts(parts@).push(current@) == split_crlf(s@.take(iter.index())),
    {
        let ghost before = texts(parts@).push(current@);
        proof {
            let t = s@.take(iter.index() + 1);
            assert(t.drop_last() == s@.take(iter.index()));
            assert(t.last() == c);
            if iter.index() > 0 {
                assert(t[t.len() - 2] == s@[iter.index() - 1]);
            }
            assert(before.drop_last() == texts(parts@));
            assert(before.last() == current@);
        }
        if c == '\n' && returned {
            let n: usize = current.len();
            let part = string_of(current.as_slice(), 0, n - 1);
            assert(part@ == current@.drop_last());
            let ghost finished = texts(parts@).push(part@);
            parts.push(part);
            assert(texts(parts@) == finished);
            current = Vec::new();
            assert(current@ == Seq::<char>::empty());
        } else {
            current.push(c);
        }
        returned = c == '\r';
    }
    assert(s@.take(s@.len() as int) == s@);
    let part = string_of(current.as_slice(), 0, current.len());
    assert(part@ == current@);
    let ghost finished = texts(parts@).push(part@);
    parts.push(part);
    assert(texts(parts@) == finished);
    parts
}

/// What follows `prefix` at the start of `s`, where it stands there.
pub open spec fn strip_prefix(s: Seq<char>, prefix: Seq<char>) -> Option<Seq<char>> {
    if s.len() >= prefix.len() && s.take(prefix.len() as int) == prefix {
        Some(s.skip(prefix.len() as int))
    } else {
        None
    }
}

/// Whether `part` stands in `s` at position `at`.
pub open spec fn stands_at(s: Seq<char>, part: Seq<char>, at: int) -> bool {
    0 <= at && at + part.len() <= s.len() && s.subrange(at, at + part.len()) == part
}

/// Whether `part` stands somewhere in `s`.
pub open spec fn contains(s: Seq<char>, part: Seq<char>) -> bool {
    exists|at: int| stands_at(s, part, at)
}

fn chars_stand_at(s: &Vec<char>, part: &Vec<char>, at: usize) -> (r: bool)
    requires
        at <= s@.len(),
    ensures
        r == stands_at(s@, part@, at as int),
{
    if part.len() > s.len() - at {
        return false;
    }
    let mut i: usize = 0;
    while i < part.len()
        invariant
            i <= part@.len(),
            at + part@.len() <= s@.len() <= usize::MAX,
            forall|k: int| 0 <= k < i ==> s@[at + k] == part@[k],
        decreases part@.len() - i,
    {
        if s[at + i] != part[i] {
            assert(s@.subrange(at as int, at + part@.len())[i as int] != part@[i as int]);
            return false;
        }
        i += 1;
    }
    assert(s@.subrange(at as int, at + part@.len()) == part@);
    true
}

/// Removes a prefix.
pub fn without_prefix(s: &str, prefix: &str) -> (r: Option<String>)
    ensures
        match r {
            Some(rest) => strip_prefix(s@, prefix@) == Some(rest@),
            None => strip_prefix(s@, prefix@) is None,
        },
{
    let chars = chars_of(s);
    let front = chars_of(prefix);
    assert(chars@.len() >= front@.len() ==> chars@.subrange(0, front@.len() as int) == chars@.take(
        front@.len() as int,
    ));
    if chars_stand_at(&chars, &front, 0) {
        let rest = string_of(chars.as_slice(), front.len(), chars.len());
        assert(rest@ == s@.skip(front@.len() as int));
        Some(rest)
    } else {
        None
    }
}

/// Whether `part` stands somewhere in `s`.
pub fn has_part(s: &str, part: &str) -> (r: bool)
    ensures
        r == contains(s@, part@),
{
    let chars = chars_of(s);
    let sought = chars_of(part);
    let mut at: usize = 0;
    loop
        invariant
            at <= chars@.len(),
            chars@ == s@,
            sought@ == part@,
            forall|k: int| 0 <= k < at ==> !stands_at(chars@, sought@, k),
        decreases chars@.len() - at,
    {
        if chars_stand_at(&chars, &sought, at) {
            return true;
        }
        if at == chars.len() {
            return false;
        }
        at += 1;
    }
}

/// Texts joined by a separator.
pub open spec fn join(list: Seq<Seq<char>>, separator: Seq<char>) -> Seq<char>
    decreases list.len(),
{
    if list.len() == 0 {
        seq![]
    } else if list.len() == 1 {
        list[0]
    } else {
        join(list.drop_last(), separator) + separator + list.last()
    }
}

/// Joins strings by a separator.
pub fn joined(list: &Vec<String>, separator: &str) -> (r: String)
    ensures
        r@ == join(texts(list@), separator@),
{
    let ghost all = texts(list@);
    let mut r = String::new();
    let mut i: usize = 0;
    while i < list.len()
        invariant
            i <= list@.len(),
            all == texts(list@),
            r@ == join(all.take(i as int), separator@),
        decreases list@.len() - i,
    {
        proof {
            let next = all.take(i + 1);
            assert(next.drop_last() == all.take(i as int));
            assert(next.last() == list@[i as int]@);
        }
        if i > 0 {
            r.append(separator);
        } else {
            assert(r@ + list@[0]@ == list@[0]@);
        }
        r.append(list[i].as_str());
        i += 1;
    }
    assert(all.take(i as int) == all);
    r
}

/// Whether a list holds a text.
pub fn holds_text(list: &Vec<String>, sought: &str) -> (r: bool)
    ensures
        r == texts(list@).contains(sought@),
{
    let mut i: usize = 0;
    while i < list.len()
        invariant
            i <= list@.len(),
            forall|k: int| 0 <= k < i ==> (#[trigger] texts(list@)[k]) != sought@,
        decreases list@.len() - i,
    {
        if same(list[i].as_str(), sought) {
            assert(texts(list@)[i as int] == sought@);
            return true;
        }
        i += 1;
    }
    false
}

/// Whether `a` comes before `b` in the order of their characters.
pub open spec fn precedes(a: Seq<char>, b: Seq<char>) -> bool
    decreases a.len(),
{
    if b.len() == 0 {
        false
    } else if a.len() == 0 {
        true
    } else if a[0] == b[0] {
        precedes(a.skip(1), b.skip(1))
    } else {
        a[0] < b[0]
    }
}

/// The order of texts is transitive.
pub proof fn lemma_precedes_transitive(a: Seq<char>, b: Seq<char>, c: Seq<char>)
    requires
        precedes(a, b),
        precedes(b, c),
    ensures
        precedes(a, c),
    decreases a.len(),
{
    if a.len() > 0 && b.len() > 0 && c.len() > 0 && a[0] == b[0] && b[0] == c[0] {
        lemma_precedes_transitive(a.skip(1), b.skip(1), c.skip(1));
    }
}

/// Whether `a` comes before `b` in the order of their characters.
pub fn comes_before(a: &str, b: &str) -> (r: bool)
    ensures
        r == precedes(a@, b@),
{
    let x = chars_of(a);
    let y = chars_of(b);
    let mut i: usize = 0;
    assert(x@.skip(0) == x@ && y@.skip(0) == y@);
    while i < x.len() && i < y.len()
        invariant
            i <= x@.len(),
            i <= y@.len(),
            precedes(x@, y@) == precedes(x@.skip(i as int), y@.skip(i as int)),
            x@ == a@,
            y@ == b@,
        decreases x@.len() - i,
    {
        assert(x@.skip(i as int).skip(1) == x@.skip(i + 1));
        assert(y@.skip(i as int).skip(1) == y@.skip(i + 1));
        if x[i] != y[i] {
            return x[i] < y[i];
        }
        i += 1;
    }
    i < y.len()
}

} // verus!
