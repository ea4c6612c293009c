//! Semantic versions: `MAJOR.MINOR.PATCH`, optionally followed by a hyphen
//! and a pre-release.

use crate::domain::prerelease::{
    law_prerelease_round_trip, prerelease_of, read_prerelease, PreRelease, PreReleaseModel,
};
use crate::error::{model_of, ErrorModel, GitPublishError};
use crate::text::{
    chars_of, decimal_text, decimal_value, is_digit, is_lower, is_numeral, is_upper,
    lemma_decimal_text, lemma_numeral_text, lemma_run_end_is, number_of, push_chars,
    push_decimal, read_u32, run_end, scan, unsigned_digits, CharClass,
};
use vstd::prelude::*;
use vstd::slice::slice_subrange;

verus! {

/// How far a release moves the version.
#[derive(Debug, Clone, Copy, PartialEq, Eq, Structural)]
pub enum VersionBump {
    Major,
    Minor,
    Patch,
}

impl VersionBump {
    /// How severe the bump is: a major bump is more severe than a minor one,
    /// and a minor one more severe than a patch.
    pub open spec fn severity(self) -> nat {
        match self {
            VersionBump::Major => 2,
            VersionBump::Minor => 1,
            VersionBump::Patch => 0,
        }
    }

    /// The more severe of two bumps.
    pub open spec fn greater(self, other: VersionBump) -> VersionBump {
        if self.severity() >= other.severity() {
            self
        } else {
            other
        }
    }
}

/// A semantic version.
#[derive(Debug, Clone, PartialEq, Eq)]
pub struct Version {
    pub major: u32,
    pub minor: u32,
    pub patch: u32,
    pub prerelease: Option<PreRelease>,
}

/// The mathematical value of a [`Version`].
pub struct VersionModel {
    pub major: nat,
    pub minor: nat,
    pub patch: nat,
    pub prerelease: Option<PreReleaseModel>,
}

impl View for Version {
    type V = VersionModel;

    open spec fn view(&self) -> VersionModel {
        VersionModel {
            major: self.major as nat,
            minor: self.minor as nat,
            patch: self.patch as nat,
            prerelease: match self.prerelease {
                Some(p) => Some(p@),
                None => None,
            },
        }
    }
}

impl VersionModel {
    /// The three numbers fit in 32 bits each.
    pub open spec fn representable(self) -> bool {
        self.major <= u32::MAX && self.minor <= u32::MAX && self.patch <= u32::MAX
    }

    /// The three numbers, with dots between them.
    pub open spec fn core_text(self) -> Seq<char> {
        decimal_text(self.major) + seq!['.'] + decimal_text(self.minor) + seq!['.'] + decimal_text(
            self.patch,
        )
    }

    /// The text of the version.
    pub open spec fn text(self) -> Seq<char> {
        match self.prerelease {
            Some(p) => self.core_text() + seq!['-'] + p.text(),
            None => self.core_text(),
        }
    }

    /// The stable version that a bump leads to.
    pub open spec fn bumped(self, kind: VersionBump) -> VersionModel {
        match kind {
            VersionBump::Major => VersionModel {
                major: self.major + 1,
                minor: 0,
                patch: 0,
                prerelease: None,
            },
            VersionBump::Minor => VersionModel {
                major: self.major,
                minor: self.minor + 1,
                patch: 0,
                prerelease: None,
            },
            VersionBump::Patch => VersionModel {
                major: self.major,
                minor: self.minor,
                patch: self.patch + 1,
                prerelease: None,
            },
        }
    }

    /// The number that a bump of the given kind raises.
    pub open spec fn raised(self, kind: VersionBump) -> nat {
        match kind {
            VersionBump::Major => self.major,
            VersionBump::Minor => self.minor,
            VersionBump::Patch => self.patch,
        }
    }
}

/// A tag with its prefix taken off: one ASCII letter that stands before a
/// digit is a prefix.
pub open spec fn without_prefix(tag: Seq<char>) -> Seq<char> {
    if tag.len() >= 2 && (is_lower(tag[0]) || is_upper(tag[0])) && is_digit(tag[1]) {
        tag.skip(1)
    } else {
        tag
    }
}

/// The error for a tag that does not hold three numbers.
pub open spec fn invalid_format(tag: Seq<char>) -> ErrorModel {
    ErrorModel::Version(
        "Invalid version format: '"@ + tag + "' - expected X.Y.Z or X.Y.Z-PRERELEASE"@,
    )
}

/// The error for a major number that is none.
pub open spec fn invalid_major(part: Seq<char>) -> ErrorModel {
    ErrorModel::Version("Invalid major version: "@ + part)
}

/// The error for a minor number that is none.
pub open spec fn invalid_minor(part: Seq<char>) -> ErrorModel {
    ErrorModel::Version("Invalid minor version: "@ + part)
}

/// The error for a patch number that is none.
pub open spec fn invalid_patch(part: Seq<char>) -> ErrorModel {
    ErrorModel::Version("Invalid patch version: "@ + part)
}

/// The three parts of a text that holds exactly two dots: what stands before
/// the first, between the two, and after the second.
pub open spec fn three_parts(core: Seq<char>) -> Option<(Seq<char>, Seq<char>, Seq<char>)> {
    let d1 = run_end(core, 0, CharClass::Not('.'));
    let d2 = run_end(core, d1 + 1, CharClass::Not('.'));
    let d3 = run_end(core, d2 + 1, CharClass::Not('.'));
    if d1 < core.len() && d2 < core.len() && d3 == core.len() {
        Some((core.subrange(0, d1), core.subrange(d1 + 1, d2), core.subrange(d2 + 1, d3)))
    } else {
        None
    }
}

/// The version that the numbers `core` and the optional pre-release
/// `suffix` denote, for the tag `tag`.
pub open spec fn version_from(tag: Seq<char>, core: Seq<char>, suffix: Option<Seq<char>>)
    -> Result<VersionModel, ErrorModel> {
    match three_parts(core) {
        None => Err(invalid_format(tag)),
        Some((first, second, third)) => match (
            number_of(first),
            number_of(second),
            number_of(third),
        ) {
            (None, _, _) => Err(invalid_major(first)),
            (Some(_), None, _) => Err(invalid_minor(second)),
            (Some(_), Some(_), None) => Err(invalid_patch(third)),
            (Some(major), Some(minor), Some(patch)) => match suffix {
                None => Ok(
                    VersionModel {
                        major: major as nat,
                        minor: minor as nat,
                        patch: patch as nat,
                        prerelease: None,
                    },
                ),
                Some(text) => match prerelease_of(text) {
                    Ok(p) => Ok(
                        VersionModel {
                            major: major as nat,
                            minor: minor as nat,
                            patch: patch as nat,
                            prerelease: Some(p),
                        },
                    ),
                    Err(e) => Err(e),
                },
            },
        },
    }
}

/// The version that a tag denotes. A prefix letter is taken off; what stands
/// before the first hyphen must be three unsigned numbers with dots between
/// them; what follows the hyphen, where there is one, must be a pre-release.
pub open spec fn version_of(tag: Seq<char>) -> Result<VersionModel, ErrorModel> {
    let clean = without_prefix(tag);
    let dash = run_end(clean, 0, CharClass::Not('-'));
    version_from(
        tag,
        clean.subrange(0, dash),
        if dash < clean.len() {
            Some(clean.subrange(dash + 1, clean.len() as int))
        } else {
            None
        },
    )
}

/// Splits a text that holds exactly two dots at them.
pub fn split_three<'a>(core: &'a [char]) -> (parts: Option<(&'a [char], &'a [char], &'a [char])>)
    ensures
        match parts {
            Some((a, b, c)) => three_parts(core@) == Some((a@, b@, c@)),
            None => three_parts(core@) is None,
        },
{
    let d1 = scan(core, 0, CharClass::Not('.'));
    if d1 >= core.len() {
        return None;
    }
    let d2 = scan(core, d1 + 1, CharClass::Not('.'));
    if d2 >= core.len() {
        return None;
    }
    let d3 = scan(core, d2 + 1, CharClass::Not('.'));
    if d3 != core.len() {
        return None;
    }
    Some(
        (
            slice_subrange(core, 0, d1),
            slice_subrange(core, d1 + 1, d2),
            slice_subrange(core, d2 + 1, d3),
        ),
    )
}

/// Builds the message that names a part that is no number.
fn part_message(lead: &str, part: &[char]) -> (message: String)
    ensures
        message@ == lead@ + part@,
{
    let mut message = lead.to_string();
    push_chars(&mut message, part);
    message
}

impl Version {
    /// A stable version.
    pub fn new(major: u32, minor: u32, patch: u32) -> (v: Version)
        ensures
            v.major == major,
            v.minor == minor,
            v.patch == patch,
            v.prerelease is None,
    {
        Version { major, minor, patch, prerelease: None }
    }

    /// A version with the given pre-release, if any.
    pub fn with_prerelease(major: u32, minor: u32, patch: u32, prerelease: Option<PreRelease>) -> (v:
        Version)
        ensures
            v.major == major,
            v.minor == minor,
            v.patch == patch,
            v.prerelease == prerelease,
    {
        Version { major, minor, patch, prerelease }
    }

    /// Reads the version of a tag such as `v1.2.3`, `1.2.3` or
    /// `v1.2.3-beta.1`.
    pub fn parse(tag: &str) -> (r: Result<Version, GitPublishError>)
        ensures
            model_of(r) == version_of(tag@),
            r matches Ok(v) ==> (v@.prerelease matches Some(p) ==> p.well_formed()
                && p.identifier.canonical()),
    {
        let all = chars_of(tag);
        let t = all.as_slice();
        let prefixed = t.len() >= 2 && (('a' <= t[0] && t[0] <= 'z') || ('A' <= t[0] && t[0]
            <= 'Z')) && ('0' <= t[1] && t[1] <= '9');
        let clean = if prefixed {
            slice_subrange(t, 1, t.len())
        } else {
            t
        };
        assert(clean@ == without_prefix(tag@));
        let dash = scan(clean, 0, CharClass::Not('-'));
        let core = slice_subrange(clean, 0, dash);
        let (first, second, third) = match split_three(core) {
            Some(parts) => parts,
            None => {
                return Err(Self::format_error(t));
            },
        };
        let major = match read_u32(first) {
            Some(n) => n,
            None => {
                return Err(
                    GitPublishError::Version(part_message("Invalid major version: ", first)),
                );
            },
        };
        let minor = match read_u32(second) {
            Some(n) => n,
            None => {
                return Err(
                    GitPublishError::Version(part_message("Invalid minor version: ", second)),
                );
            },
        };
        let patch = match read_u32(third) {
            Some(n) => n,
            None => {
                return Err(
                    GitPublishError::Version(part_message("Invalid patch version: ", third)),
                );
            },
        };
        if dash == clean.len() {
            return Ok(Version { major, minor, patch, prerelease: None });
        }
        match read_prerelease(slice_subrange(clean, dash + 1, clean.len())) {
            Ok(p) => Ok(Version { major, minor, patch, prerelease: Some(p) }),
            Err(e) => Err(e),
        }
    }

    /// The error for a tag that does not hold three numbers.
    fn format_error(tag: &[char]) -> (e: GitPublishError)
        ensures
            e@ == invalid_format(tag@),
    {
        let mut message = "Invalid version format: '".to_string();
        push_chars(&mut message, tag);
        message.append("' - expected X.Y.Z or X.Y.Z-PRERELEASE");
        GitPublishError::Version(message)
    }

    /// The stable version that follows this one: a major bump raises the
    /// major number and clears the other two, a minor bump raises the minor
    /// number and clears the patch number, a patch bump raises the patch
    /// number. The pre-release is dropped in every case.
    pub fn bump(&self, bump_type: &VersionBump) -> (next: Version)
        requires
            self@.raised(*bump_type) < u32::MAX,
        ensures
            next@ == self@.bumped(*bump_type),
            next.prerelease is None,
    {
        match bump_type {
            VersionBump::Major => Version {
                major: self.major + 1,
                minor: 0,
                patch: 0,
                prerelease: None,
            },
            VersionBump::Minor => Version {
                major: self.major,
                minor: self.minor + 1,
                patch: 0,
                prerelease: None,
            },
            VersionBump::Patch => Version {
                major: self.major,
                minor: self.minor,
                patch: self.patch + 1,
                prerelease: None,
            },
        }
    }

    /// The version as text.
    pub fn to_string(&self) -> (out: String)
        ensures
            out@ == self@.text(),
    {
        let mut out = String::new();
        push_decimal(&mut out, self.major as u64);
        out.push('.');
        push_decimal(&mut out, self.minor as u64);
        out.push('.');
        push_decimal(&mut out, self.patch as u64);
        assert(out@ == self@.core_text());
        if let Some(p) = &self.prerelease {
            out.push('-');
            let suffix = p.to_string();
            out.append(suffix.as_str());
            assert(out@ == self@.core_text() + seq!['-'] + p@.text());
        }
        out
    }
}

/// Every bump gives a stable version.
pub proof fn law_bump_clears_prerelease(v: VersionModel, kind: VersionBump)
    ensures
        v.bumped(kind).prerelease is None,
{
}

/// Three numerals with dots between them are split at the dots, hold no
/// hyphen, and open with a digit.
pub proof fn lemma_three_numerals(major: Seq<char>, minor: Seq<char>, patch: Seq<char>)
    requires
        is_numeral(major),
        is_numeral(minor),
        is_numeral(patch),
    ensures
        ({
            let core = major + seq!['.'] + minor + seq!['.'] + patch;
            &&& three_parts(core) == Some((major, minor, patch))
            &&& is_digit(core[0])
            &&& forall|k: int| 0 <= k < core.len() ==> #[trigger] core[k] != '-'
        }),
{
    let core = major + seq!['.'] + minor + seq!['.'] + patch;
    let a = major.len() as int;
    let b = a + 1 + minor.len();
    let n = core.len() as int;
    assert(n == b + 1 + patch.len());
    assert forall|k: int| 0 <= k < n implies (is_digit(#[trigger] core[k]) && k != a && k != b)
        || (core[k] == '.' && (k == a || k == b)) by {
        if k < a {
            assert(core[k] == major[k]);
            assert(is_digit(major[k]));
        } else if a < k < b {
            assert(core[k] == minor[k - a - 1]);
            assert(is_digit(minor[k - a - 1]));
        } else if k > b {
            assert(core[k] == patch[k - b - 1]);
            assert(is_digit(patch[k - b - 1]));
        }
    }
    assert(core[a] == '.');
    assert(core[b] == '.');
    lemma_run_end_is(core, 0, CharClass::Not('.'), a);
    lemma_run_end_is(core, a + 1, CharClass::Not('.'), b);
    lemma_run_end_is(core, b + 1, CharClass::Not('.'), n);
    assert(core.subrange(0, a) == major);
    assert(core.subrange(a + 1, b) == minor);
    assert(core.subrange(b + 1, n) == patch);
}

/// A numeral denotes a number.
pub proof fn lemma_numeral_number(s: Seq<char>)
    requires
        is_numeral(s),
        decimal_value(s) <= u32::MAX,
    ensures
        number_of(s) == Some(decimal_value(s) as u32),
{
    assert(is_digit(s[0]));
    assert(unsigned_digits(s) == s);
}

/// A tag made of three numerals with dots between them, without prefix, is
/// read as the version of those three numbers, and that version is written
/// as the same text.
pub proof fn law_parse_then_format(major: Seq<char>, minor: Seq<char>, patch: Seq<char>)
    requires
        is_numeral(major) && decimal_value(major) <= u32::MAX,
        is_numeral(minor) && decimal_value(minor) <= u32::MAX,
        is_numeral(patch) && decimal_value(patch) <= u32::MAX,
    ensures
        ({
            let tag = major + seq!['.'] + minor + seq!['.'] + patch;
            let v = VersionModel {
                major: decimal_value(major),
                minor: decimal_value(minor),
                patch: decimal_value(patch),
                prerelease: None,
            };
            version_of(tag) == Ok::<VersionModel, ErrorModel>(v) && v.text() == tag
        }),
{
    let tag = major + seq!['.'] + minor + seq!['.'] + patch;
    lemma_three_numerals(major, minor, patch);
    assert(without_prefix(tag) == tag);
    lemma_run_end_is(tag, 0, CharClass::Not('-'), tag.len() as int);
    assert(tag.subrange(0, tag.len() as int) == tag);
    lemma_numeral_number(major);
    lemma_numeral_number(minor);
    lemma_numeral_number(patch);
    lemma_numeral_text(major);
    lemma_numeral_text(minor);
    lemma_numeral_text(patch);
}

/// A version is read back from its own text, where its pre-release, if it
/// has one, has a canonical identifier.
pub proof fn law_format_then_parse(v: VersionModel)
    requires
        v.representable(),
        v.prerelease matches Some(p) ==> p.identifier.canonical(),
    ensures
        version_of(v.text()) == Ok::<VersionModel, ErrorModel>(v),
{
    let major = decimal_text(v.major);
    let minor = decimal_text(v.minor);
    let patch = decimal_text(v.patch);
    lemma_decimal_text(v.major);
    lemma_decimal_text(v.minor);
    lemma_decimal_text(v.patch);
    lemma_three_numerals(major, minor, patch);
    lemma_numeral_number(major);
    lemma_numeral_number(minor);
    lemma_numeral_number(patch);
    let core = v.core_text();
    let text = v.text();
    let n = core.len() as int;
    assert(text[0] == core[0]);
    assert(without_prefix(text) == text);
    assert forall|k: int| 0 <= k < n implies CharClass::Not('-').holds(#[trigger] text[k]) by {
        assert(text[k] == core[k]);
    }
    lemma_run_end_is(text, 0, CharClass::Not('-'), n);
    assert(text.subrange(0, n) == core);
    match v.prerelease {
        None => {},
        Some(p) => {
            law_prerelease_round_trip(p);
            assert(text.subrange(n + 1, text.len() as int) == p.text());
        },
    }
}

} // verus!
