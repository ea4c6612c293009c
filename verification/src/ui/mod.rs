//! Checks on what the user hands in.

use crate::domain::tag::placeholder;
use crate::error::{ErrorModel, GitPublishError};
use crate::text::{
    all_digits, chars_of, contains, decimal_value, ends_with, find, first_occurrence, found_at,
    includes, is_digit, lemma_decimal_value_grows, lowercase_of, occurs_at, push_chars,
    same_text, starts_with, string_of, trim, trimmed, unsigned_digits,
};
use vstd::prelude::*;
use vstd::slice::slice_subrange;

verus! {

/// What stands before the first placeholder of a pattern.
pub open spec fn prefix_of(pattern: Seq<char>) -> Seq<char> {
    pattern.subrange(0, first_occurrence(pattern, placeholder()))
}

/// What follows the first placeholder of a pattern.
pub open spec fn suffix_of(pattern: Seq<char>) -> Seq<char> {
    pattern.skip(first_occurrence(pattern, placeholder()) + placeholder().len())
}

/// The part of a tag that stands between the prefix and the suffix of a
/// pattern.
pub open spec fn middle_of(tag: Seq<char>, pattern: Seq<char>) -> Seq<char> {
    tag.subrange(prefix_of(pattern).len() as int, tag.len() - suffix_of(pattern).len())
}

/// Digits and dots alone.
pub open spec fn is_dotted_number(s: Seq<char>) -> bool {
    forall|i: int| 0 <= i < s.len() ==> is_digit(#[trigger] s[i]) || s[i] == '.'
}

/// The error for a pattern with more than one placeholder.
pub open spec fn many_placeholders(pattern: Seq<char>) -> ErrorModel {
    ErrorModel::Tag(
        "Invalid pattern '"@ + pattern + "': should have exactly one {version} placeholder"@,
    )
}

/// The error for a tag that does not open with the prefix.
pub open spec fn missing_prefix(tag: Seq<char>, pattern: Seq<char>) -> ErrorModel {
    ErrorModel::Tag(
        "Tag '"@ + tag + "' does not match pattern '"@ + pattern + "': missing prefix '"@
            + prefix_of(pattern) + "'"@,
    )
}

/// The error for a tag that does not close with the suffix.
pub open spec fn missing_suffix(tag: Seq<char>, pattern: Seq<char>) -> ErrorModel {
    ErrorModel::Tag(
        "Tag '"@ + tag + "' does not match pattern '"@ + pattern + "': missing suffix '"@
            + suffix_of(pattern) + "'"@,
    )
}

/// The error for a tag whose middle is no dotted number.
pub open spec fn invalid_middle(tag: Seq<char>, pattern: Seq<char>) -> ErrorModel {
    ErrorModel::Tag(
        "Tag '"@ + tag + "' has invalid version format '"@ + middle_of(tag, pattern) + "'"@,
    )
}

/// The prefix and the suffix of the pattern both stand in the tag, and
/// overlap there: the tag is shorter than the two together.
pub open spec fn ends_overlap(tag: Seq<char>, pattern: Seq<char>) -> bool {
    &&& contains(pattern, placeholder())
    &&& !contains(suffix_of(pattern), placeholder())
    &&& starts_with(tag, prefix_of(pattern))
    &&& ends_with(tag, suffix_of(pattern))
    &&& tag.len() < prefix_of(pattern).len() + suffix_of(pattern).len()
}

/// Whether a tag has the form that a pattern asks for. A pattern without
/// placeholder asks for nothing. One with a single placeholder asks that the
/// tag opens with what stands before the placeholder, closes with what
/// follows it, and holds digits and dots alone between the two.
pub open spec fn tag_format(tag: Seq<char>, pattern: Seq<char>) -> Result<(), ErrorModel> {
    if !contains(pattern, placeholder()) {
        Ok(())
    } else if contains(suffix_of(pattern), placeholder()) {
        Err(many_placeholders(pattern))
    } else if !starts_with(tag, prefix_of(pattern)) {
        Err(missing_prefix(tag, pattern))
    } else if !ends_with(tag, suffix_of(pattern)) {
        Err(missing_suffix(tag, pattern))
    } else if !is_dotted_number(middle_of(tag, pattern)) {
        Err(invalid_middle(tag, pattern))
    } else {
        Ok(())
    }
}

/// Tests whether `v` holds digits and dots alone.
fn check_dotted_number(v: &[char]) -> (ok: bool)
    ensures
        ok == is_dotted_number(v@),
{
    let mut i: usize = 0;
    while i < v.len()
        invariant
            i <= v@.len(),
            forall|j: int| 0 <= j < i ==> is_digit(#[trigger] v@[j]) || v@[j] == '.',
        decreases v@.len() - i,
    {
        let c = v[i];
        if !(('0' <= c && c <= '9') || c == '.') {
            assert(!(is_digit(v@[i as int]) || v@[i as int] == '.'));
            return false;
        }
        i += 1;
    }
    true
}

/// Checks that a tag has the form that a pattern asks for.
pub fn validate_tag_format(tag: &str, pattern: &str) -> (r: Result<(), GitPublishError>)
    requires
        !ends_overlap(tag@, pattern@),
    ensures
        match r {
            Ok(_) => tag_format(tag@, pattern@) == Ok::<(), ErrorModel>(()),
            Err(e) => tag_format(tag@, pattern@) == Err::<(), ErrorModel>(e@),
        },
{
    let pattern_chars = chars_of(pattern);
    let p = pattern_chars.as_slice();
    let tag_chars = chars_of(tag);
    let t = tag_chars.as_slice();
    let mark_chars = chars_of("{version}");
    let mark = mark_chars.as_slice();
    let at = match find(p, mark) {
        Some(at) => at,
        None => {
            return Ok(());
        },
    };
    assert(occurs_at(p@, mark@, at as int));
    let width = mark.len();
    let length = p.len();
    assert(at + width <= length);
    let prefix = slice_subrange(p, 0, at);
    let suffix = slice_subrange(p, at + width, length);
    assert(prefix@ == prefix_of(pattern@));
    assert(suffix@ == suffix_of(pattern@));
    if includes(suffix, mark) {
        let mut message = "Invalid pattern '".to_string();
        push_chars(&mut message, p);
        message.append("': should have exactly one {version} placeholder");
        return Err(GitPublishError::Tag(message));
    }
    if !found_at(t, prefix, 0) {
        let mut message = "Tag '".to_string();
        push_chars(&mut message, t);
        message.append("' does not match pattern '");
        push_chars(&mut message, p);
        message.append("': missing prefix '");
        push_chars(&mut message, prefix);
        message.append("'");
        return Err(GitPublishError::Tag(message));
    }
    if suffix.len() > t.len() || !found_at(t, suffix, t.len() - suffix.len()) {
        let mut message = "Tag '".to_string();
        push_chars(&mut message, t);
        message.append("' does not match pattern '");
        push_chars(&mut message, p);
        message.append("': missing suffix '");
        push_chars(&mut message, suffix);
        message.append("'");
        return Err(GitPublishError::Tag(message));
    }
    let middle = slice_subrange(t, prefix.len(), t.len() - suffix.len());
    if !check_dotted_number(middle) {
        let mut message = "Tag '".to_string();
        push_chars(&mut message, t);
        message.append("' has invalid version format '");
        push_chars(&mut message, middle);
        message.append("'");
        return Err(GitPublishError::Tag(message));
    }
    Ok(())
}

/// The choice that an answer to a numbered list of `count` entries makes:
/// the position of the entry, counted from 0. White space around the answer
/// does not count. No answer takes the first entry; a number from 1 to
/// `count` takes the entry of that number; anything else takes none.
pub open spec fn choice_of(answer: Seq<char>, count: nat) -> Option<nat> {
    let entry = trimmed(answer);
    let digits = unsigned_digits(entry);
    if entry.len() == 0 {
        if count >= 1 {
            Some(0nat)
        } else {
            None
        }
    } else if digits.len() > 0 && all_digits(digits) && 1 <= decimal_value(digits) <= count {
        Some((decimal_value(digits) - 1) as nat)
    } else {
        None
    }
}

/// Reads the choice that an answer makes among `count` numbered entries.
pub fn read_choice(answer: &str, count: usize) -> (choice: Option<usize>)
    ensures
        match choice {
            Some(at) => choice_of(answer@, count as nat) == Some(at as nat),
            None => choice_of(answer@, count as nat) is None,
        },
{
    let all = chars_of(answer);
    let entry = trim(all.as_slice());
    if entry.len() == 0 {
        return if count >= 1 {
            Some(0)
        } else {
            None
        };
    }
    let start: usize = if entry[0] == '+' {
        1
    } else {
        0
    };
    let ghost digits = unsigned_digits(entry@);
    assert(digits == entry@.skip(start as int));
    if start == entry.len() {
        return None;
    }
    let mut value: usize = 0;
    let mut i: usize = start;
    assert(digits.take(0).len() == 0);
    while i < entry.len()
        invariant
            start <= i <= entry@.len(),
            entry@ == trimmed(answer@),
            entry@.len() > 0,
            digits == unsigned_digits(entry@),
            digits == entry@.skip(start as int),
            all_digits(digits.take(i - start)),
            value == decimal_value(digits.take(i - start)),
            value <= count,
        decreases entry@.len() - i,
    {
        let c = entry[i];
        assert(c == digits[i - start]);
        if !('0' <= c && c <= '9') {
            assert(!is_digit(digits[i - start]));
            return None;
        }
        let d: usize = (c as u32 - '0' as u32) as usize;
        let ghost next = digits.take(i - start + 1);
        assert(next.drop_last() == digits.take(i - start));
        assert(next.last() == c);
        assert forall|j: int| 0 <= j < next.len() implies is_digit(#[trigger] next[j]) by {
            if j < next.len() - 1 {
                assert(next[j] == digits.take(i - start)[j]);
            }
        }
        proof {
            lemma_decimal_value_grows(digits, i - start + 1);
        }
        assert(decimal_value(next) == value * 10 + d);
        if count < d || value > (count - d) / 10 {
            assert(decimal_value(next) > count);
            return None;
        }
        value = value * 10 + d;
        i += 1;
    }
    assert(digits.take(digits.len() as int) == digits);
    if value >= 1 {
        Some(value - 1)
    } else {
        None
    }
}

/// The words that say yes.
pub open spec fn is_yes_word(word: Seq<char>) -> bool {
    word == "y"@ || word == "yes"@
}

/// The words that say no.
pub open spec fn is_no_word(word: Seq<char>) -> bool {
    word == "n"@ || word == "no"@
}

/// Whether an answer says yes: it is `y` or `yes`, in any case, with or
/// without white space around it.
pub open spec fn says_yes(answer: Seq<char>) -> bool {
    is_yes_word(lowercase_of(trimmed(answer)))
}

/// Whether an answer says no: it is `n` or `no`, in any case, with or
/// without white space around it.
pub open spec fn says_no(answer: Seq<char>) -> bool {
    is_no_word(lowercase_of(trimmed(answer)))
}

/// The answer in small letters, without the white space around it.
fn answer_word(answer: &str) -> (word: String)
    ensures
        word@ == lowercase_of(trimmed(answer@)),
{
    let all = chars_of(answer);
    let entry = string_of(trim(all.as_slice()));
    entry.as_str().to_lowercase()
}

/// Tests whether a word in small letters says yes.
pub fn means_yes(word: &str) -> (yes: bool)
    ensures
        yes == is_yes_word(word@),
{
    same_text(word, "y") || same_text(word, "yes")
}

/// Tests whether a word in small letters says no.
pub fn means_no(word: &str) -> (no: bool)
    ensures
        no == is_no_word(word@),
{
    same_text(word, "n") || same_text(word, "no")
}

/// Tests whether an answer says yes.
pub fn is_yes(answer: &str) -> (yes: bool)
    ensures
        yes == says_yes(answer@),
{
    let word = answer_word(answer);
    means_yes(word.as_str())
}

/// Tests whether an answer says no.
pub fn is_no(answer: &str) -> (no: bool)
    ensures
        no == says_no(answer@),
{
    let word = answer_word(answer);
    means_no(word.as_str())
}

/// What the user wants of the tag that is proposed.
#[derive(Debug, Clone, PartialEq, Eq)]
pub enum TagChoice {
    /// Take the proposed tag.
    Recommended,
    /// Edit the proposed tag.
    Edit,
    /// Take the given tag in its place.
    Custom(String),
}

/// The mathematical value of a [`TagChoice`].
pub enum TagChoiceModel {
    Recommended,
    Edit,
    Custom(Seq<char>),
}

impl View for TagChoice {
    type V = TagChoiceModel;

    open spec fn view(&self) -> TagChoiceModel {
        match self {
            TagChoice::Recommended => TagChoiceModel::Recommended,
            TagChoice::Edit => TagChoiceModel::Edit,
            TagChoice::Custom(tag) => TagChoiceModel::Custom(tag@),
        }
    }
}

/// What an answer to the proposal of a tag asks for, white space around it
/// not counted: nothing takes the proposal, `e` asks to edit it, and
/// anything else is the tag to take.
pub open spec fn tag_choice_of(answer: Seq<char>) -> TagChoiceModel {
    let entry = trimmed(answer);
    if entry.len() == 0 {
        TagChoiceModel::Recommended
    } else if entry == seq!['e'] {
        TagChoiceModel::Edit
    } else {
        TagChoiceModel::Custom(entry)
    }
}

/// Reads what an answer to the proposal of a tag asks for.
pub fn read_tag_choice(answer: &str) -> (choice: TagChoice)
    ensures
        choice@ == tag_choice_of(answer@),
{
    let all = chars_of(answer);
    let entry = trim(all.as_slice());
    if entry.len() == 0 {
        TagChoice::Recommended
    } else if entry.len() == 1 && entry[0] == 'e' {
        assert(entry@ == seq!['e']);
        TagChoice::Edit
    } else {
        TagChoice::Custom(string_of(entry))
    }
}

/// Whether the text of an error speaks of a failed authentication: it holds
/// `auth`, `Auth`, `permission` or `Permission`.
pub open spec fn tells_of_authentication(message: Seq<char>) -> bool {
    ||| contains(message, "auth"@)
    ||| contains(message, "Auth"@)
    ||| contains(message, "permission"@)
    ||| contains(message, "Permission"@)
}

/// Tests whether the text of an error speaks of a failed authentication.
pub fn is_authentication_failure(message: &str) -> (yes: bool)
    ensures
        yes == tells_of_authentication(message@),
{
    let all = chars_of(message);
    let m = all.as_slice();
    includes(m, chars_of("auth").as_slice()) || includes(m, chars_of("Auth").as_slice())
        || includes(m, chars_of("permission").as_slice()) || includes(
        m,
        chars_of("Permission").as_slice(),
    )
}

} // verus!
