//! Plain three-number versions, for tags that carry no pre-release.

use crate::domain::tag::version_part_of;
use crate::domain::version::{split_three, three_parts};
use crate::text::{chars_of, decimal_text, number_of, push_decimal, read_u32, scan, CharClass};
use vstd::prelude::*;
use vstd::slice::slice_subrange;

verus! {

/// A version of three numbers.
#[derive(Debug, Clone, PartialEq)]
pub struct Version {
    pub major: u32,
    pub minor: u32,
    pub patch: u32,
}

/// How far a release moves the version.
#[derive(Debug, Clone, PartialEq)]
pub enum VersionBump {
    Major,
    Minor,
    Patch,
}

/// The version that a tag denotes: its leading `v`s are taken off, and what
/// is left must be three unsigned numbers with dots between them.
pub open spec fn plain_version_of(tag: Seq<char>) -> Option<(u32, u32, u32)> {
    match three_parts(version_part_of(tag)) {
        Some((first, second, third)) => match (
            number_of(first),
            number_of(second),
            number_of(third),
        ) {
            (Some(major), Some(minor), Some(patch)) => Some((major, minor, patch)),
            _ => None,
        },
        None => None,
    }
}

impl Version {
    /// The version of the three numbers.
    pub fn new(major: u32, minor: u32, patch: u32) -> (v: Version)
        ensures
            v.major == major,
            v.minor == minor,
            v.patch == patch,
    {
        Version { major, minor, patch }
    }

    /// The three numbers.
    pub open spec fn numbers(self) -> (u32, u32, u32) {
        (self.major, self.minor, self.patch)
    }

    /// The version as text: the three numbers with dots between them.
    pub fn to_string(&self) -> (out: String)
        ensures
            out@ == decimal_text(self.major as nat) + seq!['.'] + decimal_text(self.minor as nat)
                + seq!['.'] + decimal_text(self.patch as nat),
    {
        let mut out = String::new();
        push_decimal(&mut out, self.major as u64);
        out.push('.');
        push_decimal(&mut out, self.minor as u64);
        out.push('.');
        push_decimal(&mut out, self.patch as u64);
        out
    }
}

/// Reads the version of a tag such as `v1.2.3`; a tag that is none gives
/// nothing.
pub fn parse_version_from_tag(tag: &str) -> (found: Option<Version>)
    ensures
        match found {
            Some(v) => plain_version_of(tag@) == Some(v.numbers()),
            None => plain_version_of(tag@) is None,
        },
{
    let all = chars_of(tag);
    let v = all.as_slice();
    let a = scan(v, 0, CharClass::Only('v'));
    let rest = slice_subrange(v, a, v.len());
    assert(rest@ == v@.skip(a as int));
    let b = scan(rest, 0, CharClass::Only('V'));
    let core = slice_subrange(rest, b, rest.len());
    assert(core@ == rest@.skip(b as int));
    let (first, second, third) = match split_three(core) {
        Some(parts) => parts,
        None => {
            return None;
        },
    };
    let major = match read_u32(first) {
        Some(n) => n,
        None => {
            return None;
        },
    };
    let minor = match read_u32(second) {
        Some(n) => n,
        None => {
            return None;
        },
    };
    let patch = match read_u32(third) {
        Some(n) => n,
        None => {
            return None;
        },
    };
    Some(Version::new(major, minor, patch))
}

/// The version that follows `version`: a major bump raises the major number
/// and clears the other two, a minor bump raises the minor number and clears
/// the patch number, a patch bump raises the patch number.
pub fn bump_version(version: Version, bump_type: &VersionBump) -> (next: Version)
    requires
        match bump_type {
            VersionBump::Major => version.major < u32::MAX,
            VersionBump::Minor => version.minor < u32::MAX,
            VersionBump::Patch => version.patch < u32::MAX,
        },
    ensures
        next.numbers() == (match bump_type {
            VersionBump::Major => ((version.major + 1) as u32, 0u32, 0u32),
            VersionBump::Minor => (version.major, (version.minor + 1) as u32, 0u32),
            VersionBump::Patch => (version.major, version.minor, (version.patch + 1) as u32),
        }),
{
    match bump_type {
        VersionBump::Major => Version { major: version.major + 1, minor: 0, patch: 0 },
        VersionBump::Minor => Version {
            major: version.major,
            minor: version.minor + 1,
            patch: 0,
        },
        VersionBump::Patch => Version {
            major: version.major,
            minor: version.minor,
            patch: version.patch + 1,
        },
    }
}

} // verus!
