//! Numerals: unsigned numbers as decimal and hexadecimal text.

use crate::text::chars_of;
use vstd::prelude::*;

verus! {

/// The base of a numeral.
#[derive(Debug, Clone, Copy, PartialEq, Eq, Structural)]
pub enum Base {
    Decimal,
    Hexadecimal,
}

/// The digit of a value below sixteen, in upper case.
pub open spec fn digit(value: int) -> char {
    if value < 10 {
        (48 + value) as char
    } else {
        (55 + value) as char
    }
}

/// The value of a digit in a base, where it is one.
pub open spec fn digit_value(c: char, base: Base) -> Option<int> {
    if '0' <= c && c <= '9' {
        Some(c as u32 - 48)
    } else if base == Base::Hexadecimal && 'A' <= c && c <= 'F' {
        Some(c as u32 - 55)
    } else if base == Base::Hexadecimal && 'a' <= c && c <= 'f' {
        Some(c as u32 - 87)
    } else {
        None
    }
}

/// The numeral of `n`, without leading zeros.
pub open spec fn numeral(n: nat, base: Base) -> Seq<char>
    decreases n,
{
    match base {
        Base::Decimal => if n < 10 {
            seq![digit(n as int)]
        } else {
            numeral(n / 10, base).push(digit((n % 10) as int))
        },
        Base::Hexadecimal => if n < 16 {
            seq![digit(n as int)]
        } else {
            numeral(n / 16, base).push(digit((n % 16) as int))
        },
    }
}

/// The number that a row of digits denotes, where all are digits.
pub open spec fn digits_value(s: Seq<char>, base: Base) -> Option<int>
    decreases s.len(),
{
    if s.len() == 0 {
        Some(0)
    } else {
        match (digits_value(s.drop_last(), base), digit_value(s.last(), base)) {
            (Some(high), Some(low)) => Some(
                match base {
                    Base::Decimal => 10 * high + low,
                    Base::Hexadecimal => 16 * high + low,
                },
            ),
            _ => None,
        }
    }
}

/// The digits of a numeral that may carry a plus sign.
pub open spec fn unsigned(s: Seq<char>) -> Seq<char> {
    if s.len() > 0 && s[0] == '+' {
        s.skip(1)
    } else {
        s
    }
}

/// The number up to `max` that a text denotes: digits, at least one, after an
/// optional plus sign.
pub open spec fn number(s: Seq<char>, base: Base, max: nat) -> Option<nat> {
    let digits = unsigned(s);
    match digits_value(digits, base) {
        Some(value) => if digits.len() > 0 && value <= max {
            Some(value as nat)
        } else {
            None
        },
        None => None,
    }
}

fn digit_char(value: u8) -> (c: char)
    requires
        value < 16,
    ensures
        c == digit(value as int),
{
    if value < 10 {
        (48 + value) as char
    } else {
        (55 + value) as char
    }
}

/// Writes a number as a numeral.
pub fn numeral_of(n: u64, base: Base) -> (s: String)
    ensures
        s@ == numeral(n as nat, base),
    decreases n,
{
    let radix: u64 = match base {
        Base::Decimal => 10,
        Base::Hexadecimal => 16,
    };
    let mut s = if n < radix {
        String::new()
    } else {
        match base {
            Base::Decimal => numeral_of(n / 10, base),
            Base::Hexadecimal => numeral_of(n / 16, base),
        }
    };
    let low: u8 = match base {
        Base::Decimal => (n % 10) as u8,
        Base::Hexadecimal => (n % 16) as u8,
    };
    let ghost high = s@;
    s.push(digit_char(low));
    assert(n < radix ==> s@ == seq![digit(n as int)]);
    s
}

fn value_of_digit(c: char, base: Base) -> (r: Option<u8>)
    ensures
        match r {
            Some(value) => digit_value(c, base) == Some(value as int) && value < 16 && (base
                == Base::Decimal ==> value < 10),
            None => digit_value(c, base) is None,
        },
{
    if '0' <= c && c <= '9' {
        Some(c as u8 - 48)
    } else if base == Base::Hexadecimal && 'A' <= c && c <= 'F' {
        Some(c as u8 - 55)
    } else if base == Base::Hexadecimal && 'a' <= c && c <= 'f' {
        Some(c as u8 - 87)
    } else {
        None
    }
}

/// A row of digits denotes at least what its first digits denote, and nothing
/// where these denote nothing.
proof fn lemma_prefix_value(s: Seq<char>, base: Base, i: int)
    requires
        0 <= i <= s.len(),
    ensures
        digits_value(s, base) matches Some(whole) ==> (digits_value(
            s.take(i),
            base,
        ) matches Some(part) && 0 <= part <= whole),
    decreases s.len(),
{
    if i < s.len() {
        lemma_prefix_value(s.drop_last(), base, i);
        assert(s.drop_last().take(i) == s.take(i));
    } else {
        assert(s.take(i) == s);
        if s.len() > 0 {
            lemma_prefix_value(s.drop_last(), base, s.len() - 1);
        }
    }
}

/// Reads a number up to `max`.
pub fn number_of(s: &str, base: Base, max: u64) -> (r: Option<u64>)
    ensures
        match r {
            Some(value) => number(s@, base, max as nat) == Some(value as nat) && value <= max,
            None => number(s@, base, max as nat) is None,
        },
{
    let chars = chars_of(s);
    let start: usize = if chars.len() > 0 && chars[0] == '+' {
        1
    } else {
        0
    };
    let ghost digits = unsigned(s@);
    assert(chars@.skip(start as int) == digits);
    if start >= chars.len() {
        return None;
    }
    let mut value: u64 = 0;
    let mut i: usize = start;
    assert(digits.take(0) == Seq::<char>::empty());
    while i < chars.len()
        invariant
            start <= i <= chars@.len(),
            start < chars@.len(),
            digits == unsigned(s@),
            chars@.skip(start as int) == digits,
            digits_value(digits.take(i - start), base) == Some(value as int),
            value <= max,
        decreases chars@.len() - i,
    {
        let c = chars[i];
        proof {
            let t = digits.take(i - start + 1);
            assert(t.drop_last() == digits.take(i - start));
            assert(t.last() == digits[i - start]);
            assert(digits[i - start] == c);
            lemma_prefix_value(digits, base, i - start + 1);
        }
        let low = match value_of_digit(c, base) {
            Some(low) => low,
            None => {
                return None;
            },
        };
        let next: u128 = match base {
            Base::Decimal => 10 * (value as u128) + low as u128,
            Base::Hexadecimal => 16 * (value as u128) + low as u128,
        };
        if next > max as u128 {
            return None;
        }
        value = next as u64;
        i += 1;
    }
    assert(digits.take(digits.len() as int) == digits);
    Some(value)
}

/// Reading a numeral gives back the number that was written.
pub proof fn number_reads_numeral(n: nat, base: Base, max: nat)
    requires
        n <= max,
    ensures
        number(numeral(n, base), base, max) == Some(n),
{
    lemma_numeral_value(n, base);
}

/// A number that is read keeps to the limit.
pub proof fn number_keeps_to_limit(s: Seq<char>, base: Base, max: nat)
    ensures
        number(s, base, max) matches Some(n) ==> n <= max,
{
    lemma_prefix_value(unsigned(s), base, 0);
}

proof fn lemma_numeral_value(n: nat, base: Base)
    ensures
        digits_value(numeral(n, base), base) == Some(n as int),
        numeral(n, base).len() > 0,
        numeral(n, base)[0] != '+',
    decreases n,
{
    let s = numeral(n, base);
    let radix: nat = match base {
        Base::Decimal => 10,
        Base::Hexadecimal => 16,
    };
    assert(forall|v: int| 0 <= v < radix ==> digit_value(#[trigger] digit(v), base) == Some(v));
    assert(forall|v: int| 0 <= v < radix ==> #[trigger] digit(v) != '+');
    if n < radix {
        assert(s.drop_last() == Seq::<char>::empty());
        assert(digits_value(s.drop_last(), base) == Some(0int));
    } else {
        let high = match base {
            Base::Decimal => n / 10,
            Base::Hexadecimal => n / 16,
        };
        lemma_numeral_value(high, base);
        assert(s.drop_last() == numeral(high, base));
    }
}

} // verus!
