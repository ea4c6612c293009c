//! Where a text stands in another, and what comes of putting a third in
//! its place.

use crate::text::{extend, same_chars};
use vstd::prelude::*;
use vstd::slice::slice_subrange;

verus! {

/// `needle` stands in `hay` at position `at`.
pub open spec fn occurs_at(hay: Seq<char>, needle: Seq<char>, at: int) -> bool {
    &&& 0 <= at
    &&& at + needle.len() <= hay.len()
    &&& hay.subrange(at, at + needle.len()) == needle
}

/// `needle` stands somewhere in `hay`.
pub open spec fn contains(hay: Seq<char>, needle: Seq<char>) -> bool {
    exists|at: int| occurs_at(hay, needle, at)
}

pub open spec fn starts_with(s: Seq<char>, prefix: Seq<char>) -> bool {
    occurs_at(s, prefix, 0)
}

pub open spec fn ends_with(s: Seq<char>, suffix: Seq<char>) -> bool {
    occurs_at(s, suffix, s.len() - suffix.len())
}

/// `needle` stands in `hay` at `at`, and nowhere before.
pub open spec fn first_occurs_at(hay: Seq<char>, needle: Seq<char>, at: int) -> bool {
    occurs_at(hay, needle, at) && forall|j: int| 0 <= j < at ==> !occurs_at(hay, needle, j)
}

/// The first position at which `needle` stands in `hay`.
pub open spec fn first_occurrence(hay: Seq<char>, needle: Seq<char>) -> int
    recommends
        contains(hay, needle),
{
    choose|at: int| first_occurs_at(hay, needle, at)
}

/// There is one first occurrence at most.
pub proof fn lemma_first_occurrence(hay: Seq<char>, needle: Seq<char>, at: int)
    requires
        first_occurs_at(hay, needle, at),
    ensures
        first_occurrence(hay, needle) == at,
{
    let other = first_occurrence(hay, needle);
    assert(first_occurs_at(hay, needle, other));
    if other < at {
        assert(!occurs_at(hay, needle, other));
    } else if at < other {
        assert(!occurs_at(hay, needle, at));
    }
}

/// Tests whether `needle` stands in `hay` at `at`.
pub fn found_at(hay: &[char], needle: &[char], at: usize) -> (b: bool)
    ensures
        b == occurs_at(hay@, needle@, at as int),
{
    if at > hay.len() || needle.len() > hay.len() - at {
        return false;
    }
    let part = slice_subrange(hay, at, at + needle.len());
    same_chars(part, needle)
}

/// The first position at which `needle` stands in `hay`, if there is one.
pub fn find(hay: &[char], needle: &[char]) -> (at: Option<usize>)
    ensures
        at is Some <==> contains(hay@, needle@),
        at matches Some(i) ==> first_occurs_at(hay@, needle@, i as int) && first_occurrence(
            hay@,
            needle@,
        ) == i,
{
    if needle.len() > hay.len() {
        return None;
    }
    let last: usize = hay.len() - needle.len();
    let mut i: usize = 0;
    loop
        invariant
            last == hay@.len() - needle@.len(),
            i <= last,
            forall|j: int| 0 <= j < i ==> !occurs_at(hay@, needle@, j),
        decreases last - i,
    {
        if found_at(hay, needle, i) {
            proof {
                lemma_first_occurrence(hay@, needle@, i as int);
            }
            return Some(i);
        }
        if i == last {
            return None;
        }
        i += 1;
    }
}

/// Tests whether `needle` stands somewhere in `hay`.
pub fn includes(hay: &[char], needle: &[char]) -> (b: bool)
    ensures
        b == contains(hay@, needle@),
{
    find(hay, needle).is_some()
}

/// `s` with every occurrence of `from` replaced by `to`, the occurrences
/// taken from the left and not overlapping.
pub open spec fn replace_all(s: Seq<char>, from: Seq<char>, to: Seq<char>) -> Seq<char>
    recommends
        from.len() > 0,
    decreases s.len(),
{
    if from.len() == 0 || s.len() < from.len() {
        s
    } else if s.subrange(0, from.len() as int) == from {
        to + replace_all(s.skip(from.len() as int), from, to)
    } else {
        seq![s[0]] + replace_all(s.skip(1), from, to)
    }
}

/// Replaces every occurrence of `from` in `s` by `to`.
pub fn replace(s: &[char], from: &[char], to: &[char]) -> (out: Vec<char>)
    requires
        from@.len() > 0,
    ensures
        out@ == replace_all(s@, from@, to@),
{
    let mut out: Vec<char> = Vec::new();
    let mut i: usize = 0;
    assert(s@.skip(0) == s@);
    assert(out@ + replace_all(s@, from@, to@) == replace_all(s@, from@, to@));
    while i < s.len()
        invariant
            i <= s@.len(),
            from@.len() > 0,
            replace_all(s@, from@, to@) == out@ + replace_all(s@.skip(i as int), from@, to@),
        decreases s@.len() - i,
    {
        let ghost rest = s@.skip(i as int);
        if found_at(s, from, i) {
            proof {
                assert(rest.subrange(0, from@.len() as int) == s@.subrange(
                    i as int,
                    i + from@.len(),
                ));
                assert(rest.skip(from@.len() as int) == s@.skip(i + from@.len()));
            }
            extend(&mut out, to);
            i += from.len();
        } else {
            proof {
                if rest.len() >= from@.len() {
                    assert(rest.subrange(0, from@.len() as int) == s@.subrange(
                        i as int,
                        i + from@.len(),
                    ));
                    assert(rest.skip(1) == s@.skip(i + 1));
                    assert(rest[0] == s@[i as int]);
                }
            }
            if s.len() - i < from.len() {
                // too short for another occurrence: the rest is kept as it is
                extend(&mut out, slice_subrange(s, i, s.len()));
                assert(s@.subrange(i as int, s@.len() as int) == rest);
                i = s.len();
                assert(s@.skip(i as int).len() == 0);
            } else {
                out.push(s[i]);
                i += 1;
            }
        }
    }
    assert(s@.skip(s@.len() as int).len() == 0);
    out
}

} // verus!
