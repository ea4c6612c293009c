//! Pre-release identifiers: `alpha`, `beta`, `rc` or a name of one's own,
//! with an optional iteration number, as in `beta.2`.

use crate::error::{model_of, ErrorModel, GitPublishError};
use crate::text::{
    ascii_lower, chars_of, decimal_text, is_digit, is_lower, is_upper, lemma_decimal_text,
    lemma_run_end_is, number_of, push_chars, push_decimal, read_u32, run_end, same_chars, scan,
    string_of, to_ascii_lower, unsigned_digits, CharClass,
};
use vstd::prelude::*;
use vstd::slice::slice_subrange;

verus! {

/// The kind of a pre-release.
#[derive(Debug, Clone, PartialEq, Eq, PartialOrd, Ord)]
pub enum PreReleaseType {
    /// Alpha pre-release.
    Alpha,
    /// Beta pre-release.
    Beta,
    /// Release candidate.
    ReleaseCandidate,
    /// A pre-release under a name of one's own.
    Custom(String),
}

/// The mathematical value of a [`PreReleaseType`].
pub enum IdentifierModel {
    Alpha,
    Beta,
    ReleaseCandidate,
    Custom(Seq<char>),
}

impl View for PreReleaseType {
    type V = IdentifierModel;

    open spec fn view(&self) -> IdentifierModel {
        match self {
            PreReleaseType::Alpha => IdentifierModel::Alpha,
            PreReleaseType::Beta => IdentifierModel::Beta,
            PreReleaseType::ReleaseCandidate => IdentifierModel::ReleaseCandidate,
            PreReleaseType::Custom(name) => IdentifierModel::Custom(name@),
        }
    }
}

/// The characters that a name may hold: ASCII letters, digits and the hyphen.
pub open spec fn is_name_char(c: char) -> bool {
    is_lower(c) || is_upper(c) || is_digit(c) || c == '-'
}

/// A name: one or more name characters.
pub open spec fn is_name(s: Seq<char>) -> bool {
    s.len() > 0 && forall|i: int| 0 <= i < s.len() ==> is_name_char(#[trigger] s[i])
}

impl IdentifierModel {
    /// A custom identifier holds a name.
    pub open spec fn well_formed(self) -> bool {
        self matches IdentifierModel::Custom(name) ==> is_name(name)
    }

    /// The text that the identifier is written as.
    pub open spec fn text(self) -> Seq<char> {
        match self {
            IdentifierModel::Alpha => "alpha"@,
            IdentifierModel::Beta => "beta"@,
            IdentifierModel::ReleaseCandidate => "rc"@,
            IdentifierModel::Custom(name) => name,
        }
    }
}

/// The message of the error that an inadmissible identifier gives.
pub open spec fn invalid_identifier(s: Seq<char>) -> ErrorModel {
    ErrorModel::Version("Invalid pre-release identifier: '"@ + s + seq!['\''])
}

/// The identifier that `s` names. Capitals count as small letters: `alpha`
/// and `a` name the alpha kind, `beta` and `b` the beta kind, `rc` the
/// release candidate; every other name is a custom identifier, kept in small
/// letters. What is not a name is refused.
pub open spec fn identifier_of(s: Seq<char>) -> Result<IdentifierModel, ErrorModel> {
    let low = ascii_lower(s);
    if low == "alpha"@ || low == "a"@ {
        Ok(IdentifierModel::Alpha)
    } else if low == "beta"@ || low == "b"@ {
        Ok(IdentifierModel::Beta)
    } else if low == "rc"@ {
        Ok(IdentifierModel::ReleaseCandidate)
    } else if is_name(s) {
        Ok(IdentifierModel::Custom(low))
    } else {
        Err(invalid_identifier(s))
    }
}

/// Tests whether `v` is a name.
fn check_name(v: &[char]) -> (ok: bool)
    ensures
        ok == is_name(v@),
{
    if v.len() == 0 {
        return false;
    }
    let mut i: usize = 0;
    while i < v.len()
        invariant
            i <= v@.len(),
            forall|j: int| 0 <= j < i ==> is_name_char(#[trigger] v@[j]),
        decreases v@.len() - i,
    {
        let c = v[i];
        let ok = ('a' <= c && c <= 'z') || ('A' <= c && c <= 'Z') || ('0' <= c && c <= '9') || c
            == '-';
        if !ok {
            assert(!is_name_char(v@[i as int]));
            return false;
        }
        i += 1;
    }
    true
}

/// Reads an identifier from characters.
pub fn read_identifier(v: &[char]) -> (r: Result<PreReleaseType, GitPublishError>)
    ensures
        model_of(r) == identifier_of(v@),
        r matches Ok(id) ==> id@.well_formed() && id@.canonical(),
{
    let low = to_ascii_lower(v);
    let l = low.as_slice();
    if same_chars(l, chars_of("alpha").as_slice()) || same_chars(l, chars_of("a").as_slice()) {
        Ok(PreReleaseType::Alpha)
    } else if same_chars(l, chars_of("beta").as_slice()) || same_chars(
        l,
        chars_of("b").as_slice(),
    ) {
        Ok(PreReleaseType::Beta)
    } else if same_chars(l, chars_of("rc").as_slice()) {
        Ok(PreReleaseType::ReleaseCandidate)
    } else if check_name(v) {
        proof {
            lemma_lower_name(v@);
        }
        Ok(PreReleaseType::Custom(string_of(l)))
    } else {
        let mut message = "Invalid pre-release identifier: '".to_string();
        push_chars(&mut message, v);
        message.push('\'');
        assert(message@ == "Invalid pre-release identifier: '"@ + v@ + seq!['\'']);
        Err(GitPublishError::Version(message))
    }
}

/// A name in small letters is a name, and stays as it is when it is put in
/// small letters again.
pub proof fn lemma_lower_name(s: Seq<char>)
    requires
        is_name(s),
    ensures
        is_name(ascii_lower(s)),
        ascii_lower(ascii_lower(s)) == ascii_lower(s),
{
    let low = ascii_lower(s);
    assert forall|i: int| 0 <= i < low.len() implies is_name_char(#[trigger] low[i]) by {
        assert(is_name_char(s[i]));
    }
    assert(ascii_lower(low) =~= low);
}

impl std::str::FromStr for PreReleaseType {
    type Err = GitPublishError;

    /// Reads an identifier, as [`PreReleaseType::parse`] does.
    fn from_str(s: &str) -> (r: Result<PreReleaseType, GitPublishError>)
        ensures
            model_of(r) == identifier_of(s@),
    {
        PreReleaseType::parse(s)
    }
}

impl PreReleaseType {
    /// Reads an identifier: `alpha`, `a`, `beta`, `b`, `rc` in any case, or a
    /// name of letters, digits and hyphens.
    pub fn parse(s: &str) -> (r: Result<PreReleaseType, GitPublishError>)
        ensures
            model_of(r) == identifier_of(s@),
            r matches Ok(id) ==> id@.well_formed() && id@.canonical(),
    {
        let v = chars_of(s);
        read_identifier(v.as_slice())
    }

    /// A copy of the identifier.
    pub fn duplicate(&self) -> (copy: PreReleaseType)
        ensures
            copy@ == self@,
    {
        match self {
            PreReleaseType::Alpha => PreReleaseType::Alpha,
            PreReleaseType::Beta => PreReleaseType::Beta,
            PreReleaseType::ReleaseCandidate => PreReleaseType::ReleaseCandidate,
            PreReleaseType::Custom(name) => PreReleaseType::Custom(name.clone()),
        }
    }

    /// The identifier as text.
    pub fn to_string(&self) -> (out: String)
        ensures
            out@ == self@.text(),
    {
        match self {
            PreReleaseType::Alpha => "alpha".to_string(),
            PreReleaseType::Beta => "beta".to_string(),
            PreReleaseType::ReleaseCandidate => "rc".to_string(),
            PreReleaseType::Custom(name) => name.clone(),
        }
    }
}

/// A pre-release: its kind, and how many times it was iterated.
#[derive(Debug, Clone, PartialEq, Eq)]
pub struct PreRelease {
    /// The kind of the pre-release.
    pub identifier: PreReleaseType,
    /// The iteration number, if there is one.
    pub iteration: Option<u32>,
}

/// The mathematical value of a [`PreRelease`].
pub struct PreReleaseModel {
    pub identifier: IdentifierModel,
    pub iteration: Option<u32>,
}

impl View for PreRelease {
    type V = PreReleaseModel;

    open spec fn view(&self) -> PreReleaseModel {
        PreReleaseModel { identifier: self.identifier@, iteration: self.iteration }
    }
}

impl PreReleaseModel {
    pub open spec fn well_formed(self) -> bool {
        self.identifier.well_formed()
    }

    /// The text of the pre-release: the identifier, then a dot and the
    /// iteration number where there is one.
    pub open spec fn text(self) -> Seq<char> {
        match self.iteration {
            Some(n) => self.identifier.text() + seq!['.'] + decimal_text(n as nat),
            None => self.identifier.text(),
        }
    }

    /// The pre-release that comes next: the first iteration, or the one
    /// after the present one.
    pub open spec fn next(self) -> PreReleaseModel {
        PreReleaseModel {
            identifier: self.identifier,
            iteration: Some(
                match self.iteration {
                    Some(n) => (n + 1) as u32,
                    None => 1u32,
                },
            ),
        }
    }
}

/// The error that an empty pre-release gives.
pub open spec fn empty_prerelease() -> ErrorModel {
    ErrorModel::Version("Empty pre-release identifier"@)
}

/// The error that a malformed iteration number gives.
pub open spec fn invalid_iteration(s: Seq<char>) -> ErrorModel {
    ErrorModel::Version("Invalid iteration number: '"@ + s + seq!['\''])
}

/// The pre-release that `s` denotes. What stands before the first dot must
/// name an identifier; what follows the dot, where there is one, must be an
/// unsigned number.
pub open spec fn prerelease_of(s: Seq<char>) -> Result<PreReleaseModel, ErrorModel> {
    let dot = run_end(s, 0, CharClass::Not('.'));
    if s.len() == 0 {
        Err(empty_prerelease())
    } else {
        match identifier_of(s.subrange(0, dot)) {
            Err(e) => Err(e),
            Ok(identifier) => if dot == s.len() {
                Ok(PreReleaseModel { identifier, iteration: None })
            } else {
                let number = s.subrange(dot + 1, s.len() as int);
                match number_of(number) {
                    Some(n) => Ok(PreReleaseModel { identifier, iteration: Some(n) }),
                    None => Err(invalid_iteration(number)),
                }
            },
        }
    }
}

/// Reads a pre-release from characters.
pub fn read_prerelease(v: &[char]) -> (r: Result<PreRelease, GitPublishError>)
    ensures
        model_of(r) == prerelease_of(v@),
        r matches Ok(p) ==> p@.well_formed() && p@.identifier.canonical(),
{
    if v.len() == 0 {
        return Err(GitPublishError::Version("Empty pre-release identifier".to_string()));
    }
    let dot = scan(v, 0, CharClass::Not('.'));
    let identifier = match read_identifier(slice_subrange(v, 0, dot)) {
        Ok(identifier) => identifier,
        Err(e) => {
            return Err(e);
        },
    };
    if dot == v.len() {
        return Ok(PreRelease { identifier, iteration: None });
    }
    let number = slice_subrange(v, dot + 1, v.len());
    match read_u32(number) {
        Some(n) => Ok(PreRelease { identifier, iteration: Some(n) }),
        None => {
            let mut message = "Invalid iteration number: '".to_string();
            push_chars(&mut message, number);
            message.push('\'');
            assert(message@ == "Invalid iteration number: '"@ + number@ + seq!['\'']);
            Err(GitPublishError::Version(message))
        },
    }
}

impl PreRelease {
    /// A pre-release of the given kind and iteration.
    pub fn new(identifier: PreReleaseType, iteration: Option<u32>) -> (p: PreRelease)
        ensures
            p.identifier == identifier,
            p.iteration == iteration,
    {
        PreRelease { identifier, iteration }
    }

    /// Reads a pre-release such as `beta`, `beta.1` or `my-build.5`.
    pub fn parse(s: &str) -> (r: Result<PreRelease, GitPublishError>)
        ensures
            model_of(r) == prerelease_of(s@),
            r matches Ok(p) ==> p@.well_formed() && p@.identifier.canonical(),
    {
        let v = chars_of(s);
        read_prerelease(v.as_slice())
    }

    /// The next iteration of the same kind: the first where there was none,
    /// else the one after.
    pub fn increment_iteration(&self) -> (next: PreRelease)
        requires
            self.iteration != Some(u32::MAX),
        ensures
            next@ == self@.next(),
            next@.identifier == self@.identifier,
            self.iteration matches Some(n) ==> next.iteration == Some((n + 1) as u32),
            self.iteration is None ==> next.iteration == Some(1u32),
    {
        let iteration = match self.iteration {
            Some(n) => Some(n + 1),
            None => Some(1),
        };
        PreRelease { identifier: self.identifier.duplicate(), iteration }
    }

    /// The pre-release as text.
    pub fn to_string(&self) -> (out: String)
        ensures
            out@ == self@.text(),
    {
        let mut out = self.identifier.to_string();
        if let Some(n) = self.iteration {
            out.push('.');
            push_decimal(&mut out, n as u64);
        }
        out
    }
}

/// The names that stand for the three kinds.
pub open spec fn is_kind_name(name: Seq<char>) -> bool {
    name == "alpha"@ || name == "a"@ || name == "beta"@ || name == "b"@ || name == "rc"@
}

impl IdentifierModel {
    /// An identifier as reading gives it: a custom name is in small letters
    /// and is none of the names of the three kinds.
    pub open spec fn canonical(self) -> bool {
        self matches IdentifierModel::Custom(name) ==> is_name(name) && ascii_lower(name) == name
            && !is_kind_name(name)
    }
}

/// The text of an identifier is a name, in small letters.
pub proof fn lemma_identifier_text(identifier: IdentifierModel)
    requires
        identifier.canonical(),
    ensures
        is_name(identifier.text()),
        ascii_lower(identifier.text()) == identifier.text(),
{
    reveal_strlit("alpha");
    reveal_strlit("beta");
    reveal_strlit("rc");
    let text = identifier.text();
    assert(ascii_lower(text) =~= text);
}

/// A canonical identifier is read back from its own text.
pub proof fn law_identifier_round_trip(identifier: IdentifierModel)
    requires
        identifier.canonical(),
    ensures
        identifier_of(identifier.text()) == Ok::<IdentifierModel, ErrorModel>(identifier),
{
    reveal_strlit("alpha");
    reveal_strlit("a");
    reveal_strlit("beta");
    reveal_strlit("b");
    reveal_strlit("rc");
    lemma_identifier_text(identifier);
    let text = identifier.text();
    match identifier {
        IdentifierModel::Alpha => {},
        IdentifierModel::Beta => {
            assert(text.len() == 4);
            assert(text[0] == 'b');
        },
        IdentifierModel::ReleaseCandidate => {
            assert(text.len() == 2);
        },
        IdentifierModel::Custom(name) => {},
    }
}

/// A pre-release with a canonical identifier is read back from its own text.
pub proof fn law_prerelease_round_trip(p: PreReleaseModel)
    requires
        p.identifier.canonical(),
    ensures
        prerelease_of(p.text()) == Ok::<PreReleaseModel, ErrorModel>(p),
{
    lemma_identifier_text(p.identifier);
    law_identifier_round_trip(p.identifier);
    let name = p.identifier.text();
    let text = p.text();
    let n = name.len() as int;
    assert forall|k: int| 0 <= k < n implies CharClass::Not('.').holds(#[trigger] text[k]) by {
        assert(text[k] == name[k]);
        assert(is_name_char(name[k]));
    }
    match p.iteration {
        None => {
            lemma_run_end_is(text, 0, CharClass::Not('.'), n);
            assert(text.subrange(0, n) == name);
        },
        Some(i) => {
            let digits = decimal_text(i as nat);
            lemma_decimal_text(i as nat);
            assert(text == name + seq!['.'] + digits);
            assert(text[n] == '.');
            lemma_run_end_is(text, 0, CharClass::Not('.'), n);
            assert(text.subrange(0, n) == name);
            assert(text.subrange(n + 1, text.len() as int) == digits);
            assert(is_digit(digits[0]));
            assert(unsigned_digits(digits) == digits);
        },
    }
}

} // verus!
