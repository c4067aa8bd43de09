//! Matchers for strings.

use crate::assertion::{Assertion, ChainView};
use crate::sentence::{sentence_of, AssertionSentence};
use crate::text::{contains, decimal, decimal_text, ends_with, has_infix, has_prefix, has_suffix, starts_with};
use vstd::prelude::*;
use vstd::string::*;

verus! {

/// Whether the `regex` crate accepts `pattern` as a regular expression.
pub uninterp spec fn pattern_is_valid(pattern: Seq<char>) -> bool;

/// Whether the regular expression `pattern`, which the `regex` crate accepts, has a
/// match somewhere in `text`.
pub uninterp spec fn pattern_matches(pattern: Seq<char>, text: Seq<char>) -> bool;

/// The error of the `regex` crate for a pattern that it does not accept.
#[verifier::external_type_specification]
#[verifier::external_body]
pub struct ExRegexError(regex::Error);

/// Calls `regex::Regex::new` on `pattern` and, where the pattern is accepted,
/// `Regex::is_match` on `text`. Both depend on their arguments alone: the first
/// says whether the pattern is a regular expression within the crate's default
/// limits, the second whether it matches anywhere in the text.
#[verifier::external_body]
fn find_pattern(pattern: &str, text: &str) -> (found: Result<bool, regex::Error>)
    ensures
        found is Ok <==> pattern_is_valid(pattern@),
        found matches Ok(matched) ==> matched == pattern_matches(pattern@, text@),
{
    match regex::Regex::new(pattern) {
        Ok(expression) => Ok(expression.is_match(text)),
        Err(error) => Err(error),
    }
}

/// Writes a `regex::Error` out as its `Display` implementation words it; nothing
/// is claimed of the wording.
#[verifier::external_body]
fn error_text(error: &regex::Error) -> (text: String) {
    error.to_string()
}

/// A pattern that is no regular expression, with the reason that was given.
#[derive(Debug)]
pub struct InvalidPattern {
    pub pattern: String,
    pub reason: String,
}

impl InvalidPattern {
    /// The message with which the failure is raised.
    pub fn message(&self) -> (text: String)
        ensures
            text@ == "Invalid regex pattern '"@ + self.pattern@ + "': "@ + self.reason@,
    {
        let mut text = String::from_str("Invalid regex pattern '");
        text.append(self.pattern.as_str());
        text.append("': ");
        text.append(self.reason.as_str());
        text
    }
}

/// The number of bytes that a text takes in UTF-8, as `str::len` counts them.
pub open spec fn byte_length(text: Seq<char>) -> usize {
    vstd::utf8::encode_utf8(text).len() as usize
}

/// A text between double quotes.
pub open spec fn quoted(text: Seq<char>) -> Seq<char> {
    "\""@ + text + "\""@
}

/// A pattern between slashes, as a sentence names it.
pub open spec fn pattern_object(pattern: Seq<char>) -> Seq<char> {
    "pattern /"@ + pattern + "/"@
}

/// Matchers for strings. Each adds one step to the chain.
pub trait StringMatchers: Sized {
    /// The chain so far.
    spec fn chain(&self) -> ChainView;

    /// The text under test.
    spec fn text(&self) -> Seq<char>;

    /// Expects the text to be empty.
    fn to_be_empty(self) -> (next: Self)
        ensures
            next.chain() == self.chain().add_step(
                sentence_of("be"@, "empty"@),
                self.text().len() == 0,
            ),
            next.text() == self.text(),
    ;

    /// Expects the text to take `expected` bytes in UTF-8.
    fn to_have_length(self, expected: usize) -> (next: Self)
        ensures
            next.chain() == self.chain().add_step(
                sentence_of("have"@, "length "@ + decimal(expected as nat)),
                byte_length(self.text()) == expected,
            ),
            next.text() == self.text(),
    ;

    /// Expects `substring` to occur in the text.
    fn to_contain(self, substring: &str) -> (next: Self)
        ensures
            next.chain() == self.chain().add_step(
                sentence_of("contain"@, quoted(substring@)),
                has_infix(self.text(), substring@),
            ),
            next.text() == self.text(),
    ;

    /// Expects `substring` to occur in the text; the same as `to_contain`, under a
    /// name that no other matcher has.
    fn to_contain_substring(self, substring: &str) -> (next: Self)
        ensures
            next.chain() == self.chain().add_step(
                sentence_of("contain"@, quoted(substring@)),
                has_infix(self.text(), substring@),
            ),
            next.text() == self.text(),
    ;

    /// Expects the text to begin with `prefix`.
    fn to_start_with(self, prefix: &str) -> (next: Self)
        ensures
            next.chain() == self.chain().add_step(
                sentence_of("start with"@, quoted(prefix@)),
                has_prefix(self.text(), prefix@),
            ),
            next.text() == self.text(),
    ;

    /// Expects the text to end with `suffix`.
    fn to_end_with(self, suffix: &str) -> (next: Self)
        ensures
            next.chain() == self.chain().add_step(
                sentence_of("end with"@, quoted(suffix@)),
                has_suffix(self.text(), suffix@),
            ),
            next.text() == self.text(),
    ;

    /// Expects the regular expression `pattern` to match somewhere in the text.
    fn to_match(self, pattern: &str) -> (next: Self)
        requires
            pattern_is_valid(pattern@),
        ensures
            next.chain() == self.chain().add_step(
                sentence_of("match"@, pattern_object(pattern@)),
                pattern_matches(pattern@, self.text()),
            ),
            next.text() == self.text(),
    ;

    /// Expects `pattern` to match somewhere in the text, if it is a regular
    /// expression; if it is none, the chain is not extended and the reason is
    /// returned.
    fn try_to_match(self, pattern: &str) -> (next: Result<Self, InvalidPattern>)
        ensures
            next is Ok <==> pattern_is_valid(pattern@),
            match next {
                Ok(next) => next.chain() == self.chain().add_step(
                    sentence_of("match"@, pattern_object(pattern@)),
                    pattern_matches(pattern@, self.text()),
                ) && next.text() == self.text(),
                Err(error) => error.pattern@ == pattern@,
            },
    ;
}

/// Adds the step of a check on a quoted text.
fn quoted_step<V>(chain: Assertion<V>, verb: &str, text: &str, result: bool) -> (next: Assertion<V>)
    ensures
        next@ == chain@.add_step(sentence_of(verb@, quoted(text@)), result),
        next.value == chain.value,
{
    let mut object = String::from_str("\"");
    object.append(text);
    object.append("\"");
    let sentence = AssertionSentence::new(verb, object.as_str());
    chain.push_step(sentence, result)
}

/// Adds the step of a length check.
fn length_step<V>(chain: Assertion<V>, expected: usize, result: bool) -> (next: Assertion<V>)
    ensures
        next@ == chain@.add_step(
            sentence_of("have"@, "length "@ + decimal(expected as nat)),
            result,
        ),
        next.value == chain.value,
{
    let object = String::from_str("length ").concat(decimal_text(expected as u128).as_str());
    let sentence = AssertionSentence::new("have", object.as_str());
    chain.push_step(sentence, result)
}

/// Adds the step of a pattern check.
fn pattern_step<V>(chain: Assertion<V>, pattern: &str, result: bool) -> (next: Assertion<V>)
    ensures
        next@ == chain@.add_step(sentence_of("match"@, pattern_object(pattern@)), result),
        next.value == chain.value,
{
    let mut object = String::from_str("pattern /");
    object.append(pattern);
    object.append("/");
    let sentence = AssertionSentence::new("match", object.as_str());
    chain.push_step(sentence, result)
}

/// Looks for `pattern` in `text`; an invalid pattern gives the reason.
fn match_pattern(text: &str, pattern: &str) -> (found: Result<bool, InvalidPattern>)
    ensures
        found is Ok <==> pattern_is_valid(pattern@),
        match found {
            Ok(matched) => matched == pattern_matches(pattern@, text@),
            Err(error) => error.pattern@ == pattern@,
        },
{
    match find_pattern(pattern, text) {
        Ok(matched) => Ok(matched),
        Err(error) => Err(
            InvalidPattern { pattern: String::from_str(pattern), reason: error_text(&error) },
        ),
    }
}

/// The matchers on an owned string.
impl StringMatchers for Assertion<String> {
    open spec fn chain(&self) -> ChainView {
        self@
    }

    open spec fn text(&self) -> Seq<char> {
        self.value@
    }

    fn to_be_empty(self) -> (next: Self) {
        let result = self.value.as_str().is_empty();
        let sentence = AssertionSentence::new("be", "empty");
        self.push_step(sentence, result)
    }

    fn to_have_length(self, expected: usize) -> (next: Self) {
        let result = self.value.as_str().len() == expected;
        length_step(self, expected, result)
    }

    fn to_contain(self, substring: &str) -> (next: Self) {
        self.to_contain_substring(substring)
    }

    fn to_contain_substring(self, substring: &str) -> (next: Self) {
        let result = contains(self.value.as_str(), substring);
        quoted_step(self, "contain", substring, result)
    }

    fn to_start_with(self, prefix: &str) -> (next: Self) {
        let result = starts_with(self.value.as_str(), prefix);
        quoted_step(self, "start with", prefix, result)
    }

    fn to_end_with(self, suffix: &str) -> (next: Self) {
        let result = ends_with(self.value.as_str(), suffix);
        quoted_step(self, "end with", suffix, result)
    }

    fn to_match(self, pattern: &str) -> (next: Self) {
        let result = match match_pattern(self.value.as_str(), pattern) {
            Ok(matched) => matched,
            Err(_) => false,
        };
        pattern_step(self, pattern, result)
    }

    fn try_to_match(self, pattern: &str) -> (next: Result<Self, InvalidPattern>) {
        match match_pattern(self.value.as_str(), pattern) {
            Ok(_) => Ok(self.to_match(pattern)),
            Err(error) => Err(error),
        }
    }
}

/// The matchers on a string slice.
impl StringMatchers for Assertion<&str> {
    open spec fn chain(&self) -> ChainView {
        self@
    }

    open spec fn text(&self) -> Seq<char> {
        self.value@
    }

    fn to_be_empty(self) -> (next: Self) {
        let result = self.value.is_empty();
        let sentence = AssertionSentence::new("be", "empty");
        self.push_step(sentence, result)
    }

    fn to_have_length(self, expected: usize) -> (next: Self) {
        let result = self.value.len() == expected;
        length_step(self, expected, result)
    }

    fn to_contain(self, substring: &str) -> (next: Self) {
        self.to_contain_substring(substring)
    }

    fn to_contain_substring(self, substring: &str) -> (next: Self) {
        let result = contains(self.value, substring);
        quoted_step(self, "contain", substring, result)
    }

    fn to_start_with(self, prefix: &str) -> (next: Self) {
        let result = starts_with(self.value, prefix);
        quoted_step(self, "start with", prefix, result)
    }

    fn to_end_with(self, suffix: &str) -> (next: Self) {
        let result = ends_with(self.value, suffix);
        quoted_step(self, "end with", suffix, result)
    }

    fn to_match(self, pattern: &str) -> (next: Self) {
        let result = match match_pattern(self.value, pattern) {
            Ok(matched) => matched,
            Err(_) => false,
        };
        pattern_step(self, pattern, result)
    }

    fn try_to_match(self, pattern: &str) -> (next: Result<Self, InvalidPattern>) {
        match match_pattern(self.value, pattern) {
            Ok(_) => Ok(self.to_match(pattern)),
            Err(error) => Err(error),
        }
    }
}

} // verus!
