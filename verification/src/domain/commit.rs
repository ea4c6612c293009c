//! Conventional-commit messages.
//!
//! A message is conventional when its first line opens with a header of one
//! of the forms `type(scope)!: description`, `type(scope): description`,
//! `type!: description` or `type: description`, where `type` is a run of
//! lowercase letters and `scope` a non-empty run of characters other than `)`.
//! Every other message is read as a `chore` whose description is the whole
//! message. The lines that follow the first are read for one thing only: the
//! footer `BREAKING CHANGE:`.

use crate::config::{ConventionalCommitsConfig, ConventionalCommitsModel};
use crate::domain::version::VersionBump;
use crate::text::{
    chars_of, contains, includes, is_lower, lemma_run_end, lemma_run_end_is, lowercase_of, run_end,
    same_text, scan, string_of, texts, CharClass,
};
use vstd::prelude::*;
use vstd::slice::slice_subrange;

verus! {

/// What a commit message says, once parsed.
#[derive(Debug, Clone, PartialEq, Eq)]
pub struct ParsedCommit {
    pub commit_type: String,
    pub scope: Option<String>,
    pub description: String,
    pub is_breaking_change: bool,
}

/// The mathematical value of a [`ParsedCommit`].
pub struct CommitModel {
    pub commit_type: Seq<char>,
    pub scope: Option<Seq<char>>,
    pub description: Seq<char>,
    pub is_breaking_change: bool,
}

/// The header of a conventional message.
pub struct Header {
    pub commit_type: Seq<char>,
    pub scope: Option<Seq<char>>,
    /// A `!` stands immediately before the colon.
    pub marked: bool,
    /// The position that follows the colon.
    pub body: int,
}

impl View for ParsedCommit {
    type V = CommitModel;

    open spec fn view(&self) -> CommitModel {
        CommitModel {
            commit_type: self.commit_type@,
            scope: match self.scope {
                Some(s) => Some(s@),
                None => None,
            },
            description: self.description@,
            is_breaking_change: self.is_breaking_change,
        }
    }
}

/// The footer that marks a breaking change wherever it stands in a
/// conventional message.
pub open spec fn breaking_footer() -> Seq<char> {
    "BREAKING CHANGE:"@
}

/// The type given to a message that is not conventional.
pub open spec fn default_type() -> Seq<char> {
    "chore"@
}

/// The first line of a message: what stands before its first line feed.
pub open spec fn first_line(message: Seq<char>) -> Seq<char> {
    message.subrange(0, run_end(message, 0, CharClass::Not('\n')))
}

/// The header that the line `s` opens with, if it opens with one.
pub open spec fn header_of(s: Seq<char>) -> Option<Header> {
    let t = run_end(s, 0, CharClass::Lower);
    if t == 0 || t >= s.len() {
        None
    } else if s[t] == '(' {
        let e = run_end(s, t + 1, CharClass::Not(')'));
        let marked = e + 1 < s.len() && s[e + 1] == '!';
        let colon = if marked {
            e + 2
        } else {
            e + 1
        };
        if e > t + 1 && colon < s.len() && s[colon] == ':' {
            Some(
                Header {
                    commit_type: s.subrange(0, t),
                    scope: Some(s.subrange(t + 1, e)),
                    marked,
                    body: colon + 1,
                },
            )
        } else {
            None
        }
    } else if s[t] == '!' {
        if t + 1 < s.len() && s[t + 1] == ':' {
            Some(Header { commit_type: s.subrange(0, t), scope: None, marked: true, body: t + 2 })
        } else {
            None
        }
    } else if s[t] == ':' {
        Some(Header { commit_type: s.subrange(0, t), scope: None, marked: false, body: t + 1 })
    } else {
        None
    }
}

/// The description that follows the colon of a header: what is left of the
/// line once the white space behind the colon is skipped.
pub open spec fn description_from(line: Seq<char>, body: int) -> Seq<char> {
    line.skip(run_end(line, body, CharClass::Space))
}

/// Whether the first line of `message` opens with a conventional header.
pub open spec fn is_conventional(message: Seq<char>) -> bool {
    header_of(first_line(message)) is Some
}

/// Whether the header of `message` carries a `!` immediately before its
/// colon.
pub open spec fn is_marked(message: Seq<char>) -> bool {
    header_of(first_line(message)) matches Some(h) && h.marked
}

/// What the message `s` says.
pub open spec fn parsed(s: Seq<char>) -> CommitModel {
    match header_of(first_line(s)) {
        Some(h) => CommitModel {
            commit_type: h.commit_type,
            scope: h.scope,
            description: description_from(first_line(s), h.body),
            is_breaking_change: h.marked || contains(s, breaking_footer()),
        },
        None => CommitModel {
            commit_type: default_type(),
            scope: None,
            description: s,
            is_breaking_change: false,
        },
    }
}

/// The header of a line as positions in it.
struct Marks {
    type_end: usize,
    scope: Option<(usize, usize)>,
    marked: bool,
    body: usize,
}

impl Marks {
    spec fn header(self, s: Seq<char>) -> Header {
        Header {
            commit_type: s.subrange(0, self.type_end as int),
            scope: match self.scope {
                Some((a, b)) => Some(s.subrange(a as int, b as int)),
                None => None,
            },
            marked: self.marked,
            body: self.body as int,
        }
    }

    spec fn fits(self, s: Seq<char>) -> bool {
        &&& self.type_end <= s.len()
        &&& self.body <= s.len()
        &&& self.scope matches Some((a, b)) ==> a <= b <= s.len()
    }
}

/// Finds the header that the line `v` opens with.
fn read_header(v: &[char]) -> (found: Option<Marks>)
    ensures
        found is Some <==> header_of(v@) is Some,
        found matches Some(m) ==> m.fits(v@) && m.header(v@) == header_of(v@)->0,
{
    let n = v.len();
    let t = scan(v, 0, CharClass::Lower);
    if t == 0 || t >= n {
        return None;
    }
    let c = v[t];
    if c == '(' {
        let e = scan(v, t + 1, CharClass::Not(')'));
        if e == t + 1 || e >= n {
            return None;
        }
        let marked = e + 1 < n && v[e + 1] == '!';
        let colon: usize = if marked {
            e + 2
        } else {
            e + 1
        };
        if colon < n && v[colon] == ':' {
            Some(Marks { type_end: t, scope: Some((t + 1, e)), marked, body: colon + 1 })
        } else {
            None
        }
    } else if c == '!' {
        if t + 1 < n && v[t + 1] == ':' {
            Some(Marks { type_end: t, scope: None, marked: true, body: t + 2 })
        } else {
            None
        }
    } else if c == ':' {
        Some(Marks { type_end: t, scope: None, marked: false, body: t + 1 })
    } else {
        None
    }
}

impl ParsedCommit {
    /// Parses a commit message. Every message parses: one whose first line
    /// opens with no conventional header is a `chore` that breaks nothing.
    pub fn parse(message: &str) -> (commit: ParsedCommit)
        ensures
            commit@ == parsed(message@),
    {
        let v = chars_of(message);
        let s = v.as_slice();
        let line = slice_subrange(s, 0, scan(s, 0, CharClass::Not('\n')));
        match read_header(line) {
            Some(m) => {
                let from = scan(line, m.body, CharClass::Space);
                let rest = slice_subrange(line, from, line.len());
                assert(rest@ == line@.skip(from as int));
                let footer = chars_of("BREAKING CHANGE:");
                let scope = match m.scope {
                    Some((a, b)) => Some(string_of(slice_subrange(line, a, b))),
                    None => None,
                };
                ParsedCommit {
                    commit_type: string_of(slice_subrange(line, 0, m.type_end)),
                    scope,
                    description: string_of(rest),
                    is_breaking_change: m.marked || includes(s, footer.as_slice()),
                }
            },
            None => ParsedCommit {
                commit_type: "chore".to_string(),
                scope: None,
                description: message.to_string(),
                is_breaking_change: false,
            },
        }
    }
}

/// Whether `text` holds one of `keywords`.
pub open spec fn holds_any(text: Seq<char>, keywords: Seq<Seq<char>>) -> bool {
    exists|k: int| 0 <= k < keywords.len() && contains(text, #[trigger] keywords[k])
}

/// The lowercase forms of `words`.
pub open spec fn lowered_all(words: Seq<Seq<char>>) -> Seq<Seq<char>> {
    Seq::new(words.len(), |i: int| lowercase_of(words[i]))
}

/// Whether `message` holds one of `keywords`, capitals and small letters
/// counting as the same: the lowercase form of the one holds the lowercase
/// form of the other.
pub open spec fn mentions_any(message: Seq<char>, keywords: Seq<Seq<char>>) -> bool {
    holds_any(lowercase_of(message), lowered_all(keywords))
}

/// Whether `message` announces a breaking change.
pub open spec fn is_breaking(message: Seq<char>) -> bool {
    parsed(message).is_breaking_change
}

/// The signs of a feature: the message holds a major or minor keyword, both
/// in small letters, or the type of the commit is `feat` or `feature`.
pub open spec fn feature_signs(
    lowered: Seq<char>,
    commit_type: Seq<char>,
    major_keywords: Seq<Seq<char>>,
    minor_keywords: Seq<Seq<char>>,
) -> bool {
    ||| holds_any(lowered, major_keywords)
    ||| holds_any(lowered, minor_keywords)
    ||| commit_type == "feat"@
    ||| commit_type == "feature"@
}

/// Whether `message` counts as a feature: it holds a major or minor keyword,
/// or its type is `feat` or `feature`.
pub open spec fn is_feature(message: Seq<char>, config: ConventionalCommitsModel) -> bool {
    feature_signs(
        lowercase_of(message),
        parsed(message).commit_type,
        lowered_all(config.major_keywords),
        lowered_all(config.minor_keywords),
    )
}

/// Whether `message` is a fix: its type is `fix`, `perf` or `refactor`.
pub open spec fn is_fix(message: Seq<char>) -> bool {
    ||| parsed(message).commit_type == "fix"@
    ||| parsed(message).commit_type == "perf"@
    ||| parsed(message).commit_type == "refactor"@
}

/// The bump that a list of commit messages calls for: major if one of them
/// breaks, else minor if one of them is a feature, else patch.
pub open spec fn bump_for(messages: Seq<Seq<char>>, config: ConventionalCommitsModel)
    -> VersionBump {
    if exists|i: int| 0 <= i < messages.len() && is_breaking(#[trigger] messages[i]) {
        VersionBump::Major
    } else if exists|i: int| 0 <= i < messages.len() && is_feature(#[trigger] messages[i], config) {
        VersionBump::Minor
    } else {
        VersionBump::Patch
    }
}

/// Tests whether `text` holds one of `keywords`.
pub fn holds_keyword(text: &[char], keywords: &Vec<String>) -> (hit: bool)
    ensures
        hit == holds_any(text@, texts(keywords@)),
{
    let mut k: usize = 0;
    while k < keywords.len()
        invariant
            k <= keywords@.len(),
            forall|j: int| 0 <= j < k ==> !contains(text@, #[trigger] texts(keywords@)[j]),
        decreases keywords@.len() - k,
    {
        let word = chars_of(keywords[k].as_str());
        if includes(text, word.as_slice()) {
            assert(contains(text@, texts(keywords@)[k as int]));
            return true;
        }
        k += 1;
    }
    false
}

/// Tests for the signs of a feature in a message and keywords that were
/// put in small letters, and in the type of the commit.
pub fn has_feature_signs(
    lowered: &str,
    commit_type: &str,
    major_keywords: &Vec<String>,
    minor_keywords: &Vec<String>,
) -> (yes: bool)
    ensures
        yes == feature_signs(
            lowered@,
            commit_type@,
            texts(major_keywords@),
            texts(minor_keywords@),
        ),
{
    let text = chars_of(lowered);
    holds_keyword(text.as_slice(), major_keywords) || holds_keyword(
        text.as_slice(),
        minor_keywords,
    ) || same_text(commit_type, "feat") || same_text(commit_type, "feature")
}

/// Puts each of `words` in small letters.
fn lower_all(words: &Vec<String>) -> (lowered: Vec<String>)
    ensures
        texts(lowered@) == lowered_all(texts(words@)),
{
    let mut lowered: Vec<String> = Vec::new();
    let mut i: usize = 0;
    while i < words.len()
        invariant
            i <= words@.len(),
            lowered@.len() == i,
            forall|j: int| 0 <= j < i ==> (#[trigger] lowered@[j])@ == lowercase_of(words@[j]@),
        decreases words@.len() - i,
    {
        lowered.push(words[i].as_str().to_lowercase());
        i += 1;
    }
    assert(texts(lowered@) =~= lowered_all(texts(words@)));
    lowered
}

/// Decides the version bump that a list of commit messages calls for.
///
/// A breaking message anywhere in the list makes the bump major. Without
/// one, a feature makes it minor. Everything else, the empty list included,
/// is a patch.
pub fn analyze_version_bump(commit_messages: &[String], config: &ConventionalCommitsConfig) -> (bump:
    VersionBump)
    ensures
        bump == bump_for(texts(commit_messages@), config@),
{
    let ghost messages = texts(commit_messages@);
    let major = lower_all(&config.major_keywords);
    let minor = lower_all(&config.minor_keywords);
    let mut has_features = false;
    let mut i: usize = 0;
    while i < commit_messages.len()
        invariant
            i <= commit_messages@.len(),
            messages == texts(commit_messages@),
            texts(major@) == lowered_all(config@.major_keywords),
            texts(minor@) == lowered_all(config@.minor_keywords),
            forall|j: int| 0 <= j < i ==> !is_breaking(#[trigger] messages[j]),
            has_features == exists|j: int| 0 <= j < i && is_feature(#[trigger] messages[j], config@),
        decreases commit_messages@.len() - i,
    {
        let message = commit_messages[i].as_str();
        assert(message@ == messages[i as int]);
        let commit = ParsedCommit::parse(message);
        if commit.is_breaking_change {
            assert(is_breaking(messages[i as int]));
            return VersionBump::Major;
        }
        let lowered = message.to_lowercase();
        let feature = has_feature_signs(
            lowered.as_str(),
            commit.commit_type.as_str(),
            &major,
            &minor,
        );
        assert(feature == is_feature(messages[i as int], config@));
        if feature {
            has_features = true;
        }
        i += 1;
    }
    if has_features {
        VersionBump::Minor
    } else {
        VersionBump::Patch
    }
}

/// A conventional message whose header carries a `!` immediately before the
/// colon, or which holds the footer `BREAKING CHANGE:` anywhere, makes the
/// bump major, whatever else the list holds and wherever the message stands
/// in it.
pub proof fn law_breaking_message_makes_major(
    messages: Seq<Seq<char>>,
    config: ConventionalCommitsModel,
    at: int,
)
    requires
        0 <= at < messages.len(),
        is_conventional(messages[at]),
        is_marked(messages[at]) || contains(messages[at], breaking_footer()),
    ensures
        bump_for(messages, config) == VersionBump::Major,
{
    assert(is_breaking(messages[at]));
}

/// A message that is not conventional never breaks, and so by itself never
/// makes the bump major, whatever it holds.
pub proof fn law_unconventional_message_never_breaks(message: Seq<char>)
    requires
        !is_conventional(message),
    ensures
        !is_breaking(message),
        parsed(message).commit_type == default_type(),
        parsed(message).description == message,
{
}

/// Without a breaking message, one feature in the list makes the bump minor:
/// a message of type `feat` or `feature`, or one that holds a keyword.
pub proof fn law_feature_makes_minor(
    messages: Seq<Seq<char>>,
    config: ConventionalCommitsModel,
    at: int,
)
    requires
        forall|i: int| 0 <= i < messages.len() ==> !is_breaking(#[trigger] messages[i]),
        0 <= at < messages.len(),
        is_feature(messages[at], config),
    ensures
        bump_for(messages, config) == VersionBump::Minor,
{
}

/// A list that holds neither a breaking message nor a feature is a patch:
/// so is a list of fixes, and so is the empty list.
pub proof fn law_otherwise_patch(messages: Seq<Seq<char>>, config: ConventionalCommitsModel)
    requires
        forall|i: int| 0 <= i < messages.len() ==> !is_breaking(#[trigger] messages[i]),
        forall|i: int| 0 <= i < messages.len() ==> !is_feature(#[trigger] messages[i], config),
    ensures
        bump_for(messages, config) == VersionBump::Patch,
{
}

/// A list of fixes alone is a patch: each message is of type `fix`, `perf`
/// or `refactor`, breaks nothing and holds no keyword.
pub proof fn law_fixes_make_patch(messages: Seq<Seq<char>>, config: ConventionalCommitsModel)
    requires
        forall|i: int|
            0 <= i < messages.len() ==> {
                &&& is_fix(#[trigger] messages[i])
                &&& !is_breaking(messages[i])
                &&& !mentions_any(messages[i], config.major_keywords)
                &&& !mentions_any(messages[i], config.minor_keywords)
            },
    ensures
        bump_for(messages, config) == VersionBump::Patch,
{
    reveal_strlit("feat");
    reveal_strlit("feature");
    reveal_strlit("fix");
    reveal_strlit("perf");
    reveal_strlit("refactor");
    assert forall|i: int| 0 <= i < messages.len() implies !is_feature(
        #[trigger] messages[i],
        config,
    ) by {
        let kind = parsed(messages[i]).commit_type;
        assert(is_fix(messages[i]));
        if kind.len() == 4 {
            assert(kind[0] == 'p');
        }
    }
}

/// The empty list is a patch.
pub proof fn law_empty_list_is_patch(config: ConventionalCommitsModel)
    ensures
        bump_for(Seq::<Seq<char>>::empty(), config) == VersionBump::Patch,
{
}

/// The bump of two lists in a row is the more severe of the bumps of the
/// two: what a list calls for does not depend on the order of its messages,
/// and more messages never make the bump less severe.
pub proof fn law_bump_of_joined_lists(
    first: Seq<Seq<char>>,
    second: Seq<Seq<char>>,
    config: ConventionalCommitsModel,
)
    ensures
        bump_for(first + second, config) == bump_for(first, config).greater(
            bump_for(second, config),
        ),
{
    let all = first + second;
    let n = first.len() as int;
    assert forall|i: int| 0 <= i < all.len() implies #[trigger] all[i] == (if i < n {
        first[i]
    } else {
        second[i - n]
    }) by {}
    let breaks = |list: Seq<Seq<char>>| exists|i: int| 0 <= i < list.len() && is_breaking(#[trigger] list[i]);
    let adds = |list: Seq<Seq<char>>| exists|i: int| 0 <= i < list.len() && is_feature(#[trigger] list[i], config);
    assert(breaks(all) == (breaks(first) || breaks(second))) by {
        if breaks(first) {
            let i = choose|i: int| 0 <= i < first.len() && is_breaking(#[trigger] first[i]);
            assert(is_breaking(all[i]));
        }
        if breaks(second) {
            let i = choose|i: int| 0 <= i < second.len() && is_breaking(#[trigger] second[i]);
            assert(is_breaking(all[i + n]));
        }
        if breaks(all) {
            let i = choose|i: int| 0 <= i < all.len() && is_breaking(#[trigger] all[i]);
            if i < n {
                assert(is_breaking(first[i]));
            } else {
                assert(is_breaking(second[i - n]));
            }
        }
    }
    assert(adds(all) == (adds(first) || adds(second))) by {
        if adds(first) {
            let i = choose|i: int| 0 <= i < first.len() && is_feature(#[trigger] first[i], config);
            assert(is_feature(all[i], config));
        }
        if adds(second) {
            let i = choose|i: int| 0 <= i < second.len() && is_feature(#[trigger] second[i], config);
            assert(is_feature(all[i + n], config));
        }
        if adds(all) {
            let i = choose|i: int| 0 <= i < all.len() && is_feature(#[trigger] all[i], config);
            if i < n {
                assert(is_feature(first[i], config));
            } else {
                assert(is_feature(second[i - n], config));
            }
        }
    }
}

/// The mark of a breaking change as it stands in a header: `!`, or nothing.
pub open spec fn mark_text(marked: bool) -> Seq<char> {
    if marked {
        seq!['!']
    } else {
        Seq::empty()
    }
}

/// A type: one or more lowercase letters.
pub open spec fn is_type_name(s: Seq<char>) -> bool {
    s.len() > 0 && forall|i: int| 0 <= i < s.len() ==> is_lower(#[trigger] s[i])
}

/// A scope: one or more characters, none of them `)`.
pub open spec fn is_scope_name(s: Seq<char>) -> bool {
    s.len() > 0 && forall|i: int| 0 <= i < s.len() ==> #[trigger] s[i] != ')'
}

/// A line of the form `type(scope): rest` or `type(scope)!: rest` opens with
/// the header of that type and scope, marked where the `!` stands, whatever
/// the rest is.
pub proof fn law_scoped_header(
    commit_type: Seq<char>,
    scope: Seq<char>,
    marked: bool,
    rest: Seq<char>,
)
    requires
        is_type_name(commit_type),
        is_scope_name(scope),
    ensures
        header_of(
            commit_type + seq!['('] + scope + seq![')'] + mark_text(marked) + seq![':'] + rest,
        ) == Some(
            Header {
                commit_type,
                scope: Some(scope),
                marked,
                body: (commit_type.len() + scope.len() + mark_text(marked).len() + 3) as int,
            },
        ),
{
    let line = commit_type + seq!['('] + scope + seq![')'] + mark_text(marked) + seq![':'] + rest;
    let t = commit_type.len() as int;
    let e = t + 1 + scope.len();
    assert forall|k: int| 0 <= k < t implies CharClass::Lower.holds(#[trigger] line[k]) by {
        assert(line[k] == commit_type[k]);
    }
    assert(line[t] == '(');
    lemma_run_end_is(line, 0, CharClass::Lower, t);
    assert forall|k: int| t + 1 <= k < e implies CharClass::Not(')').holds(#[trigger] line[k]) by {
        assert(line[k] == scope[k - t - 1]);
    }
    assert(line[e] == ')');
    lemma_run_end_is(line, t + 1, CharClass::Not(')'), e);
    if marked {
        assert(line[e + 1] == '!');
        assert(line[e + 2] == ':');
    } else {
        assert(line[e + 1] == ':');
    }
    assert(line.subrange(0, t) == commit_type);
    assert(line.subrange(t + 1, e) == scope);
}

/// A line of the form `type: rest` or `type!: rest` opens with the header of
/// that type without scope, marked where the `!` stands, whatever the rest
/// is.
pub proof fn law_plain_header(commit_type: Seq<char>, marked: bool, rest: Seq<char>)
    requires
        is_type_name(commit_type),
    ensures
        header_of(commit_type + mark_text(marked) + seq![':'] + rest) == Some(
            Header {
                commit_type,
                scope: None,
                marked,
                body: (commit_type.len() + mark_text(marked).len() + 1) as int,
            },
        ),
{
    let line = commit_type + mark_text(marked) + seq![':'] + rest;
    let t = commit_type.len() as int;
    assert forall|k: int| 0 <= k < t implies CharClass::Lower.holds(#[trigger] line[k]) by {
        assert(line[k] == commit_type[k]);
    }
    if marked {
        assert(line[t] == '!');
        assert(line[t + 1] == ':');
    } else {
        assert(line[t] == ':');
    }
    lemma_run_end_is(line, 0, CharClass::Lower, t);
    assert(line.subrange(0, t) == commit_type);
}

/// A line that opens with a header has one of the two forms: it is the type
/// of the header, its scope in round brackets where it has one, its mark,
/// a colon, and what follows.
pub proof fn law_header_form(line: Seq<char>)
    requires
        header_of(line) is Some,
    ensures
        ({
            let h = header_of(line)->0;
            let rest = line.skip(h.body);
            &&& is_type_name(h.commit_type)
            &&& 0 <= h.body <= line.len()
            &&& match h.scope {
                Some(scope) => is_scope_name(scope) && line == h.commit_type + seq!['('] + scope
                    + seq![')'] + mark_text(h.marked) + seq![':'] + rest,
                None => line == h.commit_type + mark_text(h.marked) + seq![':'] + rest,
            }
        }),
{
    let h = header_of(line)->0;
    let t = run_end(line, 0, CharClass::Lower);
    lemma_run_end(line, 0, CharClass::Lower);
    assert forall|i: int| 0 <= i < h.commit_type.len() implies is_lower(
        #[trigger] h.commit_type[i],
    ) by {
        assert(h.commit_type[i] == line[i]);
        assert(CharClass::Lower.holds(line[i]));
    }
    let rest = line.skip(h.body);
    match h.scope {
        Some(scope) => {
            let e = run_end(line, t + 1, CharClass::Not(')'));
            lemma_run_end(line, t + 1, CharClass::Not(')'));
            assert forall|i: int| 0 <= i < scope.len() implies #[trigger] scope[i] != ')' by {
                assert(scope[i] == line[t + 1 + i]);
                assert(CharClass::Not(')').holds(line[t + 1 + i]));
            }
            assert(line[e] == ')');
            assert(line =~= h.commit_type + seq!['('] + scope + seq![')'] + mark_text(h.marked)
                + seq![':'] + rest);
        },
        None => {
            assert(line =~= h.commit_type + mark_text(h.marked) + seq![':'] + rest);
        },
    }
}

} // verus!
