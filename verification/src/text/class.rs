//! Classes of characters, and the runs of them in a text.

use vstd::prelude::*;
use vstd::slice::slice_subrange;

verus! {

/// The Unicode `White_Space` characters.
pub open spec fn is_space(c: char) -> bool {
    ||| ('\t' <= c && c <= '\r')
    ||| c == ' '
    ||| c == '\u{85}'
    ||| c == '\u{a0}'
    ||| c == '\u{1680}'
    ||| ('\u{2000}' <= c && c <= '\u{200a}')
    ||| c == '\u{2028}'
    ||| c == '\u{2029}'
    ||| c == '\u{202f}'
    ||| c == '\u{205f}'
    ||| c == '\u{3000}'
}

pub open spec fn is_lower(c: char) -> bool {
    'a' <= c && c <= 'z'
}

pub open spec fn is_upper(c: char) -> bool {
    'A' <= c && c <= 'Z'
}

pub open spec fn is_digit(c: char) -> bool {
    '0' <= c && c <= '9'
}

/// A set of characters that a scan can run over.
#[derive(Clone, Copy, Debug)]
pub enum CharClass {
    /// `a` to `z`.
    Lower,
    /// Unicode white space.
    Space,
    /// Every character but the given one.
    Not(char),
    /// The given character alone.
    Only(char),
}

impl CharClass {
    pub open spec fn holds(self, c: char) -> bool {
        match self {
            CharClass::Lower => is_lower(c),
            CharClass::Space => is_space(c),
            CharClass::Not(x) => c != x,
            CharClass::Only(x) => c == x,
        }
    }

    /// Membership test.
    pub fn admits(&self, c: char) -> (b: bool)
        ensures
            b == self.holds(c),
    {
        match self {
            CharClass::Lower => 'a' <= c && c <= 'z',
            CharClass::Space => {
                ('\t' <= c && c <= '\r') || c == ' ' || c == '\u{85}' || c == '\u{a0}' || c
                    == '\u{1680}' || ('\u{2000}' <= c && c <= '\u{200a}') || c == '\u{2028}' || c
                    == '\u{2029}' || c == '\u{202f}' || c == '\u{205f}' || c == '\u{3000}'
            },
            CharClass::Not(x) => c != *x,
            CharClass::Only(x) => c == *x,
        }
    }
}

/// Where the longest run of `class` characters that starts at `from` ends:
/// the first position at or after `from` that holds no character of the
/// class, or the length of `s`.
pub open spec fn run_end(s: Seq<char>, from: int, class: CharClass) -> int
    decreases s.len() - from,
{
    if 0 <= from < s.len() && class.holds(s[from]) {
        run_end(s, from + 1, class)
    } else {
        from
    }
}

/// `run_end` names a position at or after `from` in `s`; every character
/// from `from` up to it is of the class, and the character at it, if there
/// is one, is not.
pub proof fn lemma_run_end(s: Seq<char>, from: int, class: CharClass)
    requires
        0 <= from <= s.len(),
    ensures
        from <= run_end(s, from, class) <= s.len(),
        forall|k: int| from <= k < run_end(s, from, class) ==> class.holds(#[trigger] s[k]),
        run_end(s, from, class) < s.len() ==> !class.holds(s[run_end(s, from, class)]),
    decreases s.len() - from,
{
    if from < s.len() && class.holds(s[from]) {
        lemma_run_end(s, from + 1, class);
    }
}

/// A position that ends a run of `class` characters is the one `run_end` names.
pub proof fn lemma_run_end_is(s: Seq<char>, from: int, class: CharClass, end: int)
    requires
        0 <= from <= end <= s.len(),
        forall|k: int| from <= k < end ==> class.holds(#[trigger] s[k]),
        end < s.len() ==> !class.holds(s[end]),
    ensures
        run_end(s, from, class) == end,
    decreases end - from,
{
    if from < end {
        assert(class.holds(s[from]));
        lemma_run_end_is(s, from + 1, class, end);
    }
}

/// Runs over the characters of `class` from `from` on.
pub fn scan(v: &[char], from: usize, class: CharClass) -> (end: usize)
    requires
        from <= v@.len(),
    ensures
        end == run_end(v@, from as int, class),
        from <= end <= v@.len(),
{
    let mut i: usize = from;
    while i < v.len() && class.admits(v[i])
        invariant
            from <= i <= v@.len(),
            run_end(v@, from as int, class) == run_end(v@, i as int, class),
        decreases v@.len() - i,
    {
        i += 1;
    }
    i
}

/// Where the white space that ends `s` starts: the position that follows the
/// last character that is no white space, or 0.
pub open spec fn tail_start(s: Seq<char>) -> int
    decreases s.len(),
{
    if s.len() > 0 && is_space(s.last()) {
        tail_start(s.drop_last())
    } else {
        s.len() as int
    }
}

/// `s` without the white space that opens and ends it.
pub open spec fn trimmed(s: Seq<char>) -> Seq<char> {
    let from = run_end(s, 0, CharClass::Space);
    let to = tail_start(s);
    if from < to {
        s.subrange(from, to)
    } else {
        Seq::empty()
    }
}

/// Takes off the white space that opens and ends `v`.
pub fn trim(v: &[char]) -> (out: &[char])
    ensures
        out@ == trimmed(v@),
{
    let from = scan(v, 0, CharClass::Space);
    let mut to: usize = v.len();
    assert(v@.take(v@.len() as int) == v@);
    while to > 0 && CharClass::Space.admits(v[to - 1])
        invariant
            to <= v@.len(),
            tail_start(v@) == tail_start(v@.take(to as int)),
        decreases to,
    {
        assert(v@.take(to as int).drop_last() == v@.take(to - 1));
        to -= 1;
    }
    assert(to > 0 ==> v@.take(to as int).last() == v@[to - 1]);
    if from < to {
        slice_subrange(v, from, to)
    } else {
        slice_subrange(v, 0, 0)
    }
}

} // verus!
