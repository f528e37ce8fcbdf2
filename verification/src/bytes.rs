//! Byte strings: searching, and conversion to and from text.

use vstd::prelude::*;

verus! {

/// The text that `String::from_utf8_lossy` makes of bytes.
pub uninterp spec fn utf8_lossy(bytes: Seq<u8>) -> Seq<char>;

/// `std::str::from_utf8` decodes exactly the bytes that are valid UTF-8.
#[verifier::external_body]
pub(crate) fn utf8_text(bytes: &[u8]) -> (text: Option<String>)
    ensures
        match text {
            Some(s) => vstd::utf8::valid_utf8(bytes@) && s@ == vstd::utf8::decode_utf8(bytes@),
            None => !vstd::utf8::valid_utf8(bytes@),
        },
{
    std::str::from_utf8(bytes).ok().map(|s| s.to_string())
}

/// `String::from_utf8_lossy` decodes valid UTF-8 as it is and replaces invalid
/// sequences; its result depends on the bytes alone. What it makes of invalid
/// sequences is not said here.
#[verifier::external_body]
pub(crate) fn utf8_text_lossy(bytes: &[u8]) -> (text: String)
    ensures
        text@ == utf8_lossy(bytes@),
        vstd::utf8::valid_utf8(bytes@) ==> text@ == vstd::utf8::decode_utf8(bytes@),
{
    String::from_utf8_lossy(bytes).into_owned()
}

/// Whether `pattern` stands in `bytes` at position `at`.
pub open spec fn matches_at(bytes: Seq<u8>, pattern: Seq<u8>, at: int) -> bool {
    0 <= at && at + pattern.len() <= bytes.len() && bytes.subrange(at, at + pattern.len())
        == pattern
}

/// The first position from `from` on where `pattern` stands in `bytes`.
pub open spec fn first_match(bytes: Seq<u8>, pattern: Seq<u8>, from: int) -> Option<int>
    decreases bytes.len() - from + 1,
{
    if from < 0 || from + pattern.len() > bytes.len() {
        None
    } else if matches_at(bytes, pattern, from) {
        Some(from)
    } else {
        first_match(bytes, pattern, from + 1)
    }
}

/// Two line endings in a row: the end of an HTTP head.
pub open spec fn blank_line() -> Seq<u8> {
    seq![13u8, 10u8, 13u8, 10u8]
}

/// The length of the HTTP head that `bytes` starts with, its blank line
/// counted, where the blank line is there.
pub open spec fn head_end(bytes: Seq<u8>) -> Option<int> {
    match first_match(bytes, blank_line(), 0) {
        Some(at) => Some(at + 4),
        None => None,
    }
}

/// The first match is one, and none stands before it.
pub proof fn lemma_first_match(bytes: Seq<u8>, pattern: Seq<u8>, from: int)
    requires
        0 <= from,
    ensures
        match first_match(bytes, pattern, from) {
            Some(at) => from <= at && matches_at(bytes, pattern, at) && forall|i: int|
                from <= i < at ==> !matches_at(bytes, pattern, i),
            None => forall|i: int| from <= i ==> !matches_at(bytes, pattern, i),
        },
    decreases bytes.len() - from + 1,
{
    if from + pattern.len() <= bytes.len() && !matches_at(bytes, pattern, from) {
        lemma_first_match(bytes, pattern, from + 1);
    }
}

/// Finds the end of the HTTP head that `bytes` starts with.
pub fn find_head_end(bytes: &[u8]) -> (r: Option<usize>)
    ensures
        match r {
            Some(end) => head_end(bytes@) == Some(end as int) && 4 <= end <= bytes@.len(),
            None => head_end(bytes@) is None,
        },
{
    let mut at: usize = 0;
    while at < bytes.len()
        invariant
            at <= bytes@.len(),
            first_match(bytes@, blank_line(), 0) == first_match(bytes@, blank_line(), at as int),
        decreases bytes@.len() - at,
    {
        if bytes.len() - at < 4 {
            return None;
        }
        if bytes[at] == 13 && bytes[at + 1] == 10 && bytes[at + 2] == 13 && bytes[at + 3] == 10 {
            assert(bytes@.subrange(at as int, at + 4) == blank_line());
            return Some(at + 4);
        }
        proof {
            let here = bytes@.subrange(at as int, at + 4);
            assert(here[0] == bytes@[at as int] && here[1] == bytes@[at + 1] && here[2]
                == bytes@[at + 2] && here[3] == bytes@[at + 3]);
            assert(blank_line()[0] == 13 && blank_line()[1] == 10 && blank_line()[2] == 13
                && blank_line()[3] == 10);
        }
        at += 1;
    }
    None
}

/// The bytes from `start` up to `end`.
pub fn slice(bytes: &[u8], start: usize, end: usize) -> (r: Vec<u8>)
    requires
        start <= end <= bytes@.len(),
    ensures
        r@ == bytes@.subrange(start as int, end as int),
{
    let mut r: Vec<u8> = Vec::new();
    let mut i: usize = start;
    while i < end
        invariant
            start <= i <= end <= bytes@.len(),
            r@ == bytes@.subrange(start as int, i as int),
        decreases end - i,
    {
        r.push(bytes[i]);
        i += 1;
        assert(r@ == bytes@.subrange(start as int, i as int));
    }
    r
}

/// Appends bytes.
pub fn append_bytes(target: &mut Vec<u8>, bytes: &[u8])
    ensures
        final(target)@ == old(target)@ + bytes@,
{
    let mut i: usize = 0;
    let ghost before = target@;
    assert(before == before + bytes@.take(0));
    while i < bytes.len()
        invariant
            i <= bytes@.len(),
            target@ == before + bytes@.take(i as int),
        decreases bytes@.len() - i,
    {
        target.push(bytes[i]);
        i += 1;
        assert(target@ == before + bytes@.take(i as int));
    }
    assert(bytes@.take(i as int) == bytes@);
}

} // verus!
