//! Small letters for capitals.

use crate::text::class::is_upper;
use vstd::prelude::*;

verus! {

/// The lowercase form of a text: what `str::to_lowercase` returns for it,
/// by the Unicode case mappings.
pub uninterp spec fn lowercase_of(s: Seq<char>) -> Seq<char>;

/// `str::to_lowercase` returns the lowercase form of the text.
pub assume_specification[ str::to_lowercase ](s: &str) -> (out: String)
    ensures
        out@ == lowercase_of(s@),
;

/// The lowercase form of an ASCII letter; every other character is itself.
pub open spec fn lower_char(c: char) -> char {
    if is_upper(c) {
        (c as int + 32) as char
    } else {
        c
    }
}

/// `s` with its ASCII capitals turned into small letters.
pub open spec fn ascii_lower(s: Seq<char>) -> Seq<char> {
    Seq::new(s.len(), |i: int| lower_char(s[i]))
}

/// Turns the ASCII capitals of `v` into small letters.
pub fn to_ascii_lower(v: &[char]) -> (out: Vec<char>)
    ensures
        out@ == ascii_lower(v@),
{
    let mut out: Vec<char> = Vec::new();
    let mut i: usize = 0;
    while i < v.len()
        invariant
            i <= v@.len(),
            out@ == ascii_lower(v@).take(i as int),
        decreases v@.len() - i,
    {
        let c = v[i];
        let low: char = if 'A' <= c && c <= 'Z' {
            (c as u8 + 32u8) as char
        } else {
            c
        };
        assert(low == lower_char(c));
        out.push(low);
        assert(out@ == ascii_lower(v@).take(i + 1));
        i += 1;
    }
    assert(ascii_lower(v@).take(v@.len() as int) == ascii_lower(v@));
    out
}

} // verus!
