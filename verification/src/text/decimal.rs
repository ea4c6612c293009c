//! Decimal numerals and the numbers they denote.

use crate::text::class::is_digit;
use vstd::prelude::*;

verus! {

pub open spec fn all_digits(s: Seq<char>) -> bool {
    forall|i: int| 0 <= i < s.len() ==> is_digit(#[trigger] s[i])
}

/// The number that a decimal digit stands for.
pub open spec fn digit_value(c: char) -> nat {
    (c as int - '0' as int) as nat
}

/// The decimal digit that stands for a number below ten.
pub open spec fn digit_char(d: nat) -> char {
    ('0' as int + d) as char
}

/// The number that a sequence of decimal digits denotes; leading zeros count
/// for nothing.
pub open spec fn decimal_value(s: Seq<char>) -> nat
    decreases s.len(),
{
    if s.len() == 0 {
        0
    } else {
        decimal_value(s.drop_last()) * 10 + digit_value(s.last())
    }
}

/// The decimal numeral of a number, without leading zeros.
pub open spec fn decimal_text(n: nat) -> Seq<char>
    decreases n,
{
    if n < 10 {
        seq![digit_char(n)]
    } else {
        decimal_text(n / 10).push(digit_char(n % 10))
    }
}

/// A numeral as `decimal_text` writes it: digits, at least one, and no
/// leading zero but in `0` itself.
pub open spec fn is_numeral(s: Seq<char>) -> bool {
    &&& s.len() >= 1
    &&& all_digits(s)
    &&& s.len() == 1 || s[0] != '0'
}

/// The digits of an unsigned number as it may be written: an optional `+`
/// goes before them.
pub open spec fn unsigned_digits(s: Seq<char>) -> Seq<char> {
    if s.len() > 0 && s[0] == '+' {
        s.skip(1)
    } else {
        s
    }
}

/// The 32-bit unsigned number that `s` denotes: an optional `+`, then one or
/// more decimal digits whose value fits in 32 bits. Anything else denotes
/// no number.
pub open spec fn number_of(s: Seq<char>) -> Option<u32> {
    let digits = unsigned_digits(s);
    if digits.len() > 0 && all_digits(digits) && decimal_value(digits) <= u32::MAX {
        Some(decimal_value(digits) as u32)
    } else {
        None
    }
}

/// A single digit denotes its own value.
pub proof fn lemma_single_digit(s: Seq<char>)
    requires
        s.len() == 1,
    ensures
        decimal_value(s) == digit_value(s[0]),
{
    assert(s.drop_last().len() == 0);
    assert(decimal_value(s.drop_last()) == 0);
}

/// The value of a run of digits is at least the value of each of its prefixes.
pub proof fn lemma_decimal_value_grows(s: Seq<char>, k: int)
    requires
        0 <= k <= s.len(),
    ensures
        decimal_value(s.take(k)) <= decimal_value(s),
    decreases s.len(),
{
    if k == s.len() {
        assert(s.take(k) == s);
    } else {
        assert(s.drop_last().take(k) == s.take(k));
        lemma_decimal_value_grows(s.drop_last(), k);
    }
}

/// `decimal_text` writes a numeral, and the numeral denotes the number.
pub proof fn lemma_decimal_text(n: nat)
    ensures
        is_numeral(decimal_text(n)),
        decimal_value(decimal_text(n)) == n,
    decreases n,
{
    if n < 10 {
        let s = decimal_text(n);
        assert(s.drop_last().len() == 0);
        assert(decimal_value(s.drop_last()) == 0);
    } else {
        lemma_decimal_text(n / 10);
        let p = decimal_text(n / 10);
        let s = decimal_text(n);
        assert(s.drop_last() == p);
        assert(s[0] == p[0]);
        if p.len() == 1 {
            lemma_single_digit(p);
        }
    }
}

/// A numeral is the `decimal_text` of the number it denotes.
pub proof fn lemma_numeral_text(s: Seq<char>)
    requires
        is_numeral(s),
    ensures
        decimal_text(decimal_value(s)) == s,
    decreases s.len(),
{
    let p = s.drop_last();
    if s.len() == 1 {
        assert(p.len() == 0);
        assert(decimal_value(p) == 0);
        assert(is_digit(s[0]));
        assert(decimal_text(decimal_value(s)) == s);
    } else {
        assert(p[0] == s[0]);
        assert forall|i: int| 0 <= i < p.len() implies is_digit(#[trigger] p[i]) by {
            assert(p[i] == s[i]);
        }
        lemma_numeral_text(p);
        lemma_decimal_value_grows(p, 1);
        lemma_single_digit(p.take(1));
        assert(is_digit(p[0]));
        assert(decimal_value(p) >= 1);
        assert(is_digit(s.last()));
        let v = decimal_value(s);
        assert(v / 10 == decimal_value(p));
        assert(v % 10 == digit_value(s.last()));
        assert(decimal_text(v) == p.push(s.last()));
        assert(p.push(s.last()) == s);
    }
}

/// Reads a 32-bit unsigned number.
pub fn read_u32(v: &[char]) -> (n: Option<u32>)
    ensures
        n == number_of(v@),
{
    let start: usize = if v.len() > 0 && v[0] == '+' {
        1
    } else {
        0
    };
    let ghost digits = unsigned_digits(v@);
    assert(digits == v@.skip(start as int));
    if start == v.len() {
        return None;
    }
    let mut acc: u64 = 0;
    let mut i: usize = start;
    assert(digits.take(0).len() == 0);
    while i < v.len()
        invariant
            start <= i <= v@.len(),
            digits == unsigned_digits(v@),
            digits == v@.skip(start as int),
            all_digits(digits.take(i - start)),
            acc == decimal_value(digits.take(i - start)),
            acc <= u32::MAX,
        decreases v@.len() - i,
    {
        let c = v[i];
        assert(c == digits[i - start]);
        if !('0' <= c && c <= '9') {
            assert(!is_digit(digits[i - start]));
            return None;
        }
        let d: u64 = (c as u32 - '0' as u32) as u64;
        let ghost next = digits.take(i - start + 1);
        assert(next.drop_last() == digits.take(i - start));
        assert(next.last() == c);
        assert forall|j: int| 0 <= j < next.len() implies is_digit(#[trigger] next[j]) by {
            if j < next.len() - 1 {
                assert(next[j] == digits.take(i - start)[j]);
            }
        }
        let wider: u64 = acc * 10 + d;
        assert(wider == decimal_value(next));
        if wider > 0xffff_ffff {
            proof {
                lemma_decimal_value_grows(digits, i - start + 1);
            }
            return None;
        }
        acc = wider;
        i += 1;
    }
    assert(digits.take(digits.len() as int) == digits);
    Some(acc as u32)
}

/// Appends the decimal numeral of `n`.
pub fn push_decimal(out: &mut String, n: u64)
    ensures
        final(out)@ == old(out)@ + decimal_text(n as nat),
    decreases n,
{
    if n >= 10 {
        push_decimal(out, n / 10);
    }
    let d: u8 = (n % 10) as u8;
    let c: char = (48u8 + d) as char;
    assert(c == digit_char((n % 10) as nat));
    out.push(c);
    assert(old(out)@ + decimal_text(n as nat) == out@);
}

} // verus!
