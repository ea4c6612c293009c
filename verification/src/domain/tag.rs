//! Tags and the patterns that name them.
//!
//! A pattern such as `v{version}` is a template: to format a version is to
//! put it in the place of `{version}`; a tag matches the pattern when it is
//! the template with three dot-separated numbers in that place.

use crate::error::{model_of, ErrorModel, GitPublishError};
use crate::text::{
    chars_of, contains, includes, replace, replace_all, run_end, scan, string_of, CharClass,
};
use vstd::prelude::*;
use vstd::slice::slice_subrange;

verus! {

/// A git tag.
#[derive(Debug, Clone, PartialEq, Eq)]
pub struct Tag {
    pub name: String,
}

/// A tag name without its leading `v`s: every leading small `v` goes, then
/// every capital `V` that leads what is left.
pub open spec fn version_part_of(name: Seq<char>) -> Seq<char> {
    let rest = name.skip(run_end(name, 0, CharClass::Only('v')));
    rest.skip(run_end(rest, 0, CharClass::Only('V')))
}

impl Tag {
    /// The tag of the given name.
    pub fn new(name: &str) -> (tag: Tag)
        ensures
            tag.name@ == name@,
    {
        Tag { name: name.to_string() }
    }

    /// The version that the tag names: the name without its leading `v`s.
    pub fn version_part(&self) -> (r: Result<String, GitPublishError>)
        ensures
            r matches Ok(part) && part@ == version_part_of(self.name@),
    {
        let all = chars_of(self.name.as_str());
        let v = all.as_slice();
        let a = scan(v, 0, CharClass::Only('v'));
        let rest = slice_subrange(v, a, v.len());
        assert(rest@ == v@.skip(a as int));
        let b = scan(rest, 0, CharClass::Only('V'));
        let part = slice_subrange(rest, b, rest.len());
        assert(part@ == rest@.skip(b as int));
        Ok(string_of(part))
    }
}

/// A tag naming pattern, such as `v{version}` or `release-{version}`.
#[derive(Debug, Clone)]
pub struct TagPattern {
    pub pattern: String,
}

/// The place of the version in a pattern.
pub open spec fn placeholder() -> Seq<char> {
    "{version}"@
}

/// The placeholder as it stands in an escaped pattern.
pub open spec fn escaped_placeholder() -> Seq<char> {
    "\\{version\\}"@
}

/// The regular expression for three dot-separated numbers.
pub open spec fn version_group() -> Seq<char> {
    "(\\d+\\.\\d+\\.\\d+)"@
}

/// The characters that mean something in a regular expression.
pub open spec fn is_meta(c: char) -> bool {
    ||| c == '\\'
    ||| c == '.'
    ||| c == '+'
    ||| c == '*'
    ||| c == '?'
    ||| c == '('
    ||| c == ')'
    ||| c == '|'
    ||| c == '['
    ||| c == ']'
    ||| c == '{'
    ||| c == '}'
    ||| c == '^'
    ||| c == '$'
    ||| c == '#'
    ||| c == '&'
    ||| c == '-'
    ||| c == '~'
}

/// `s` with a backslash before each character that means something in a
/// regular expression.
pub open spec fn escaped(s: Seq<char>) -> Seq<char>
    decreases s.len(),
{
    if s.len() == 0 {
        s
    } else if is_meta(s.last()) {
        escaped(s.drop_last()) + seq!['\\', s.last()]
    } else {
        escaped(s.drop_last()) + seq![s.last()]
    }
}

/// `regex::escape` puts a backslash before each of the characters that
/// `regex_syntax::is_meta_character` lists and leaves the others as they are.
pub assume_specification[ regex::escape ](pattern: &str) -> (out: String)
    ensures
        out@ == escaped(pattern@),
;

/// What a search for the regular expression `expression` in `haystack`
/// gives: whether there is a match, or nothing where `expression` does not
/// compile.
pub uninterp spec fn regex_search(expression: Seq<char>, haystack: Seq<char>) -> Option<bool>;

/// Compiles `expression` with `regex::Regex::new` and, where that succeeds,
/// asks `Regex::is_match` whether it matches somewhere in `haystack`. The
/// answer depends on the two texts alone.
#[verifier::external_body]
fn search(expression: &str, haystack: &str) -> (found: Option<bool>)
    ensures
        found == regex_search(expression@, haystack@),
{
    match regex::Regex::new(expression) {
        Ok(re) => Some(re.is_match(haystack)),
        Err(_) => None,
    }
}

/// The regular expression that a pattern stands for: the pattern taken
/// literally, with the version group in the place of each placeholder,
/// tied to both ends of the text.
pub open spec fn matcher_of(pattern: Seq<char>) -> Seq<char> {
    seq!['^'] + replace_all(escaped(pattern), escaped_placeholder(), version_group()) + seq!['$']
}

/// The error for a pattern without placeholder.
pub open spec fn missing_placeholder() -> ErrorModel {
    ErrorModel::Tag("Pattern must contain {version} placeholder"@)
}

/// The error for a pattern whose regular expression does not compile.
pub open spec fn invalid_pattern() -> ErrorModel {
    ErrorModel::Tag("Invalid pattern"@)
}

/// What the outcome of a search says of a tag.
pub open spec fn verdict_of(found: Option<bool>) -> Result<bool, ErrorModel> {
    match found {
        Some(b) => Ok(b),
        None => Err(invalid_pattern()),
    }
}

/// Whether `tag` matches `pattern`.
pub open spec fn match_of(pattern: Seq<char>, tag: Seq<char>) -> Result<bool, ErrorModel> {
    if !contains(pattern, placeholder()) {
        Err(missing_placeholder())
    } else {
        verdict_of(regex_search(matcher_of(pattern), tag))
    }
}

impl TagPattern {
    /// The pattern of the given template.
    pub fn new(pattern: &str) -> (p: TagPattern)
        ensures
            p.pattern@ == pattern@,
    {
        TagPattern { pattern: pattern.to_string() }
    }

    /// The tag that the pattern gives to a version: the template with
    /// `version` in the place of each `{version}`.
    pub fn format(&self, version: &str) -> (tag: String)
        ensures
            tag@ == replace_all(self.pattern@, placeholder(), version@),
    {
        let template = chars_of(self.pattern.as_str());
        let mark = chars_of("{version}");
        let text = chars_of(version);
        proof {
            reveal_strlit("{version}");
        }
        let out = replace(template.as_slice(), mark.as_slice(), text.as_slice());
        string_of(out.as_slice())
    }

    /// What the outcome of the search for a pattern's regular expression
    /// says: the answer where there is one, an error where the expression
    /// did not compile.
    pub fn verdict(found: Option<bool>) -> (r: Result<bool, GitPublishError>)
        ensures
            model_of(r) == verdict_of(found),
    {
        match found {
            Some(b) => Ok(b),
            None => Err(GitPublishError::tag("Invalid pattern")),
        }
    }

    /// Whether `tag` is the template with three dot-separated numbers in the
    /// place of the placeholder. A pattern without placeholder is an error.
    pub fn matches(&self, tag: &str) -> (r: Result<bool, GitPublishError>)
        ensures
            model_of(r) == match_of(self.pattern@, tag@),
    {
        let template = chars_of(self.pattern.as_str());
        let mark = chars_of("{version}");
        if !includes(template.as_slice(), mark.as_slice()) {
            return Err(GitPublishError::tag("Pattern must contain {version} placeholder"));
        }
        let literal = regex::escape(self.pattern.as_str());
        let literal_chars = chars_of(literal.as_str());
        let escaped_mark = chars_of("\\{version\\}");
        let group = chars_of("(\\d+\\.\\d+\\.\\d+)");
        proof {
            reveal_strlit("\\{version\\}");
        }
        let body = replace(literal_chars.as_slice(), escaped_mark.as_slice(), group.as_slice());
        let mut expression = String::new();
        expression.push('^');
        crate::text::push_chars(&mut expression, body.as_slice());
        expression.push('$');
        assert(expression@ == matcher_of(self.pattern@));
        Self::verdict(search(expression.as_str(), tag))
    }
}

/// No character of `s` is an opening brace.
pub open spec fn has_no_brace(s: Seq<char>) -> bool {
    forall|i: int| 0 <= i < s.len() ==> #[trigger] s[i] != '{'
}

/// The first opening brace of `s` stands at `at`.
pub open spec fn first_brace_at(s: Seq<char>, at: int) -> bool {
    &&& 0 <= at < s.len()
    &&& s[at] == '{'
    &&& forall|i: int| 0 <= i < at ==> #[trigger] s[i] != '{'
}

/// A text without opening brace holds no text that has one, and is left as
/// it is where such a text is to be replaced.
pub proof fn lemma_nothing_to_replace(s: Seq<char>, from: Seq<char>, to: Seq<char>, brace: int)
    requires
        has_no_brace(s),
        first_brace_at(from, brace),
    ensures
        replace_all(s, from, to) == s,
    decreases s.len(),
{
    if s.len() >= from.len() {
        assert(s.subrange(0, from.len() as int)[brace] == s[brace]);
        let rest = s.skip(1);
        assert forall|i: int| 0 <= i < rest.len() implies #[trigger] rest[i] != '{' by {
            assert(rest[i] == s[i + 1]);
        }
        lemma_nothing_to_replace(rest, from, to, brace);
        assert(seq![s[0]] + rest == s);
    }
}

/// Where a text with an opening brace stands between two texts without,
/// replacing it puts the new text in its place and leaves the two as they
/// are.
pub proof fn lemma_replaced_between(
    before: Seq<char>,
    after: Seq<char>,
    from: Seq<char>,
    to: Seq<char>,
    brace: int,
)
    requires
        has_no_brace(before),
        has_no_brace(after),
        first_brace_at(from, brace),
    ensures
        replace_all(before + from + after, from, to) == before + to + after,
    decreases before.len(),
{
    let whole = before + from + after;
    if before.len() == 0 {
        assert(whole.subrange(0, from.len() as int) == from);
        assert(whole.skip(from.len() as int) == after);
        lemma_nothing_to_replace(after, from, to, brace);
        assert(to + after == before + to + after);
    } else {
        let head = whole.subrange(0, from.len() as int);
        assert(head[brace] == whole[brace]);
        if brace < before.len() {
            assert(whole[brace] == before[brace]);
        } else {
            assert(whole[brace] == from[brace - before.len()]);
        }
        assert(head != from);
        let rest = before.skip(1);
        assert forall|i: int| 0 <= i < rest.len() implies #[trigger] rest[i] != '{' by {
            assert(rest[i] == before[i + 1]);
        }
        assert(whole.skip(1) == rest + from + after);
        lemma_replaced_between(rest, after, from, to, brace);
        assert(seq![whole[0]] + (rest + to + after) == before + to + after);
    }
}

/// A template with one placeholder is formatted by putting the version in
/// its place: what stands before the placeholder and what follows it stay
/// as they are.
pub proof fn law_format_fills_the_placeholder(
    before: Seq<char>,
    after: Seq<char>,
    version: Seq<char>,
)
    requires
        has_no_brace(before),
        has_no_brace(after),
    ensures
        replace_all(before + placeholder() + after, placeholder(), version) == before + version
            + after,
{
    reveal_strlit("{version}");
    lemma_replaced_between(before, after, placeholder(), version, 0);
}

/// Escaping goes character by character: the escaped form of two texts in a
/// row is the escaped forms of the two in a row.
pub proof fn lemma_escaped_joined(a: Seq<char>, b: Seq<char>)
    ensures
        escaped(a + b) == escaped(a) + escaped(b),
    decreases b.len(),
{
    if b.len() == 0 {
        assert(a + b == a);
        assert(escaped(a) + escaped(b) == escaped(a));
    } else {
        assert((a + b).drop_last() == a + b.drop_last());
        assert((a + b).last() == b.last());
        lemma_escaped_joined(a, b.drop_last());
        if is_meta(b.last()) {
            assert(escaped(a) + (escaped(b.drop_last()) + seq!['\\', b.last()]) == escaped(a)
                + escaped(b.drop_last()) + seq!['\\', b.last()]);
        } else {
            assert(escaped(a) + (escaped(b.drop_last()) + seq![b.last()]) == escaped(a) + escaped(
                b.drop_last(),
            ) + seq![b.last()]);
        }
    }
}

/// Escaping adds no opening brace.
pub proof fn lemma_escaped_has_no_brace(s: Seq<char>)
    requires
        has_no_brace(s),
    ensures
        has_no_brace(escaped(s)),
    decreases s.len(),
{
    if s.len() > 0 {
        let front = s.drop_last();
        assert forall|i: int| 0 <= i < front.len() implies #[trigger] front[i] != '{' by {
            assert(front[i] == s[i]);
        }
        lemma_escaped_has_no_brace(front);
        assert(s.last() == s[s.len() - 1]);
    }
}

/// The placeholder, escaped, is the text that is sought in an escaped
/// template.
pub proof fn lemma_escaped_placeholder()
    ensures
        escaped(placeholder()) == escaped_placeholder(),
{
    reveal_strlit("{version}");
    reveal_strlit("\\{version\\}");
    let p = placeholder();
    lemma_escaped_joined(p.take(1), p.skip(1));
    assert(p.take(1) + p.skip(1) == p);
    assert(escaped(p.take(1)) == seq!['\\', '{']) by {
        assert(p.take(1).drop_last().len() == 0);
        assert(escaped(p.take(1).drop_last()).len() == 0);
        assert(escaped(p.take(1)) =~= seq!['\\', '{']);
    }
    let middle = p.subrange(1, 8);
    lemma_escaped_joined(middle, p.skip(8));
    assert(middle + p.skip(8) == p.skip(1));
    assert(escaped(p.skip(8)) == seq!['\\', '}']) by {
        assert(p.skip(8).drop_last().len() == 0);
        assert(escaped(p.skip(8).drop_last()).len() == 0);
        assert(escaped(p.skip(8)) =~= seq!['\\', '}']);
    }
    assert(escaped(middle) == middle) by {
        lemma_escaped_plain(middle);
    }
    assert(escaped(p) =~= escaped_placeholder());
}

/// A text without characters that mean something to a regular expression
/// is its own escaped form.
pub proof fn lemma_escaped_plain(s: Seq<char>)
    requires
        forall|i: int| 0 <= i < s.len() ==> !is_meta(#[trigger] s[i]),
    ensures
        escaped(s) == s,
    decreases s.len(),
{
    if s.len() > 0 {
        let front = s.drop_last();
        assert forall|i: int| 0 <= i < front.len() implies !is_meta(#[trigger] front[i]) by {
            assert(front[i] == s[i]);
        }
        lemma_escaped_plain(front);
        assert(!is_meta(s[s.len() - 1]));
        assert(front + seq![s.last()] == s);
    }
}

/// The regular expression of a template with one placeholder: between the
/// two anchors stand the escaped text before the placeholder, the group
/// for the version, and the escaped text after the placeholder.
pub proof fn law_matcher_of_template(before: Seq<char>, after: Seq<char>)
    requires
        has_no_brace(before),
        has_no_brace(after),
    ensures
        matcher_of(before + placeholder() + after) == seq!['^'] + escaped(before)
            + version_group() + escaped(after) + seq!['$'],
{
    reveal_strlit("\\{version\\}");
    lemma_escaped_joined(before + placeholder(), after);
    lemma_escaped_joined(before, placeholder());
    lemma_escaped_placeholder();
    lemma_escaped_has_no_brace(before);
    lemma_escaped_has_no_brace(after);
    lemma_replaced_between(
        escaped(before),
        escaped(after),
        escaped_placeholder(),
        version_group(),
        1,
    );
}

} // verus!
