//! The sentence that describes one matcher: subject, verb, object, qualifiers and
//! negation, with the ways to write it out.

use crate::text::{
    after_last, ends_with, find_char, first_position, has_suffix, join, joined, last_segment,
    prefix, same_text, skip_leading, texts, trim_leading,
};
use vstd::prelude::*;
use vstd::string::*;

verus! {

/// A complete sentence structure for one assertion.
#[derive(Debug)]
pub struct AssertionSentence {
    /// The subject of the assertion (usually the variable name).
    pub subject: String,
    /// The verb of the assertion (such as "be", "have", "contain").
    pub verb: String,
    /// The object of the assertion (such as "greater than 42").
    pub object: String,
    /// Qualifiers that follow the object, in the order in which they were added.
    pub qualifiers: Vec<String>,
    /// Whether the assertion is negated.
    pub negated: bool,
}

/// The mathematical content of an [`AssertionSentence`].
pub struct SentenceView {
    pub subject: Seq<char>,
    pub verb: Seq<char>,
    pub object: Seq<char>,
    pub qualifiers: Seq<Seq<char>>,
    pub negated: bool,
}

impl View for AssertionSentence {
    type V = SentenceView;

    open spec fn view(&self) -> SentenceView {
        SentenceView {
            subject: self.subject@,
            verb: self.verb@,
            object: self.object@,
            qualifiers: texts(self.qualifiers@),
            negated: self.negated,
        }
    }
}

/// The sentence that a matcher starts from: a verb and an object, with no subject,
/// qualifier or negation yet.
pub open spec fn sentence_of(verb: Seq<char>, object: Seq<char>) -> SentenceView {
    SentenceView {
        subject: Seq::empty(),
        verb,
        object,
        qualifiers: Seq::empty(),
        negated: false,
    }
}

/// The singular of an English word, as the `cruet` crate's `to_singular` gives it.
pub uninterp spec fn singular_form(word: Seq<char>) -> Seq<char>;

/// The lowercase equivalent of a text, as `str::to_lowercase` gives it.
pub uninterp spec fn lowercase_form(text: Seq<char>) -> Seq<char>;

/// Calls `cruet::to_singular`. The result is a function of the word alone (a fixed
/// table of uncountable words, special cases and suffix rules); it is named, not
/// described.
#[verifier::external_body]
fn to_singular(word: &str) -> (singular: String)
    ensures
        singular@ == singular_form(word@),
{
    cruet::to_singular(word)
}

/// Calls `str::to_lowercase`, the Unicode lowercase mapping of the whole text.
#[verifier::external_body]
fn to_lowercase(text: &str) -> (lower: String)
    ensures
        lower@ == lowercase_form(text@),
{
    text.to_lowercase()
}

/// The qualifiers as they are appended to a sentence: nothing when there are none,
/// else a space and the qualifiers separated by spaces.
pub open spec fn qualifier_tail(qualifiers: Seq<Seq<char>>) -> Seq<char> {
    if qualifiers.len() == 0 {
        Seq::empty()
    } else {
        " "@ + joined(qualifiers, " "@)
    }
}

/// The raw form: "not" before the verb when negated, no subject.
pub open spec fn raw_text(s: SentenceView) -> Seq<char> {
    (if s.negated {
        "not "@ + s.verb + " "@ + s.object
    } else {
        s.verb + " "@ + s.object
    }) + qualifier_tail(s.qualifiers)
}

/// The written form of `verb` before `object`, "not" behind the verb when negated.
pub open spec fn phrase_text(verb: Seq<char>, s: SentenceView) -> Seq<char> {
    (if s.negated {
        verb + " not "@ + s.object
    } else {
        verb + " "@ + s.object
    }) + qualifier_tail(s.qualifiers)
}

/// Whether a verb takes "es" in the third person singular.
pub open spec fn takes_es(verb: Seq<char>) -> bool {
    has_suffix(verb, "s"@) || has_suffix(verb, "x"@) || has_suffix(verb, "z"@) || has_suffix(
        verb,
        "sh"@,
    ) || has_suffix(verb, "ch"@)
}

/// Whether a verb ends in a "y" that becomes "ies" in the third person singular.
pub open spec fn takes_ies(verb: Seq<char>) -> bool {
    has_suffix(verb, "y"@) && !has_suffix(verb, "ay"@) && !has_suffix(verb, "ey"@) && !has_suffix(
        verb,
        "oy"@,
    ) && !has_suffix(verb, "uy"@)
}

/// The verb as it agrees with a singular or a plural subject.
pub open spec fn conjugated(verb: Seq<char>, plural: bool) -> Seq<char> {
    if verb == "be"@ {
        if plural {
            "are"@
        } else {
            "is"@
        }
    } else if verb == "have"@ {
        if plural {
            "have"@
        } else {
            "has"@
        }
    } else if verb == "contain"@ {
        if plural {
            "contain"@
        } else {
            "contains"@
        }
    } else if verb == "start with"@ {
        if plural {
            "start with"@
        } else {
            "starts with"@
        }
    } else if verb == "end with"@ {
        if plural {
            "end with"@
        } else {
            "ends with"@
        }
    } else if plural {
        verb
    } else if takes_es(verb) {
        verb + "es"@
    } else if takes_ies(verb) {
        verb.drop_last() + "ies"@
    } else {
        verb + "s"@
    }
}

/// The variable that an expression starts from: leading `&` removed, then cut before
/// the first `.` if there is one, else before the first `[`.
pub open spec fn base_name(expr: Seq<char>) -> Seq<char> {
    let bare = skip_leading(expr, '&');
    let dot = first_position(bare, '.');
    let bracket = first_position(bare, '[');
    if dot < bare.len() {
        bare.take(dot)
    } else if bracket < bare.len() {
        bare.take(bracket)
    } else {
        bare
    }
}

/// The word by which a subject's number is judged: the last `_`-separated part of
/// its base name, in lowercase.
pub open spec fn number_word(subject: Seq<char>) -> Seq<char> {
    lowercase_form(after_last(base_name(subject), '_'))
}

/// Whether a subject reads as a plural: its number word is not its own singular.
pub open spec fn is_plural(subject: Seq<char>) -> bool {
    singular_form(number_word(subject)) != number_word(subject)
}

impl Clone for AssertionSentence {
    fn clone(&self) -> (copy: Self)
        ensures
            copy@ == self@,
    {
        let qualifiers = self.qualifiers.clone();
        assert(texts(qualifiers@) =~= texts(self.qualifiers@));
        AssertionSentence {
            subject: self.subject.clone(),
            verb: self.verb.clone(),
            object: self.object.clone(),
            qualifiers,
            negated: self.negated,
        }
    }
}

impl AssertionSentence {
    /// Creates a sentence with an empty subject, no qualifiers and no negation.
    pub fn new(verb: &str, object: &str) -> (sentence: Self)
        ensures
            sentence@ == sentence_of(verb@, object@),
    {
        let sentence = AssertionSentence {
            subject: String::new(),
            verb: String::from_str(verb),
            object: String::from_str(object),
            qualifiers: Vec::new(),
            negated: false,
        };
        assert(texts(sentence.qualifiers@) =~= Seq::<Seq<char>>::empty());
        sentence
    }

    /// Sets whether the assertion is negated.
    pub fn with_negation(self, negated: bool) -> (sentence: Self)
        ensures
            sentence@ == (SentenceView { negated, ..self@ }),
    {
        let mut sentence = self;
        sentence.negated = negated;
        sentence
    }

    /// Adds a qualifier behind those already present.
    pub fn with_qualifier(self, qualifier: &str) -> (sentence: Self)
        ensures
            sentence@ == (SentenceView {
                qualifiers: self@.qualifiers.push(qualifier@),
                ..self@
            }),
    {
        let mut sentence = self;
        sentence.qualifiers.push(String::from_str(qualifier));
        assert(texts(sentence.qualifiers@) =~= self@.qualifiers.push(qualifier@));
        sentence
    }

    /// Appends the qualifiers to a phrase.
    fn append_qualifiers(&self, phrase: String) -> (text: String)
        ensures
            text@ == phrase@ + qualifier_tail(self@.qualifiers),
    {
        let mut text = phrase;
        if self.qualifiers.len() > 0 {
            text.append(" ");
            text.append(join(&self.qualifiers, " ").as_str());
            assert(text@ =~= phrase@ + qualifier_tail(self@.qualifiers));
        } else {
            assert(text@ =~= phrase@ + qualifier_tail(self@.qualifiers));
        }
        text
    }

    /// Writes `verb` and the object, with "not" behind the verb when negated, then
    /// the qualifiers.
    fn phrase(&self, verb: &str) -> (text: String)
        ensures
            text@ == phrase_text(verb@, self@),
    {
        let mut text = String::from_str(verb);
        if self.negated {
            text.append(" not ");
        } else {
            text.append(" ");
        }
        text.append(self.object.as_str());
        self.append_qualifiers(text)
    }

    /// Formats the sentence in its raw form, without the subject.
    pub fn format(&self) -> (text: String)
        ensures
            text@ == raw_text(self@),
    {
        let mut text = String::new();
        if self.negated {
            text.append("not ");
        }
        text.append(self.verb.as_str());
        text.append(" ");
        text.append(self.object.as_str());
        proof {
            if self.negated {
                assert(text@ =~= "not "@ + self@.verb + " "@ + self@.object);
            } else {
                assert(text@ =~= self@.verb + " "@ + self@.object);
            }
        }
        self.append_qualifiers(text)
    }

    /// The raw form, as the sentence is shown where a plain string is wanted.
    pub fn to_string(&self) -> (text: String)
        ensures
            text@ == raw_text(self@),
    {
        self.format()
    }

    /// Formats the sentence with "not" placed behind the verb.
    pub fn format_grammatical(&self) -> (text: String)
        ensures
            text@ == phrase_text(self@.verb, self@),
    {
        self.phrase(self.verb.as_str())
    }

    /// Formats the sentence with the verb conjugated for a subject whose number is
    /// given.
    pub fn format_conjugated(&self, plural: bool) -> (text: String)
        ensures
            text@ == phrase_text(conjugated(self@.verb, plural), self@),
    {
        let verb = self.conjugate_verb(plural);
        self.phrase(verb.as_str())
    }

    /// Formats the sentence with the verb conjugated to agree with `subject`.
    pub fn format_with_conjugation(&self, subject: &str) -> (text: String)
        ensures
            text@ == phrase_text(conjugated(self@.verb, is_plural(subject@)), self@),
    {
        let plural = Self::is_plural_subject(subject);
        self.format_conjugated(plural)
    }

    /// Tells whether a word differs from the singular that was found for it.
    pub fn differs_from_singular(word: &str, singular: &str) -> (plural: bool)
        ensures
            plural == (singular@ != word@),
    {
        !same_text(singular, word)
    }

    /// Tells whether a subject name reads as a plural.
    pub fn is_plural_subject(subject: &str) -> (plural: bool)
        ensures
            plural == is_plural(subject@),
    {
        let base = Self::extract_base_name(subject);
        let last_word = last_segment(base.as_str(), '_');
        let lower = to_lowercase(last_word.as_str());
        let singular = to_singular(lower.as_str());
        Self::differs_from_singular(lower.as_str(), singular.as_str())
    }

    /// Extracts the base variable name from an expression such as `&var`,
    /// `var.method()` or `var[0]`.
    pub fn extract_base_name(expr: &str) -> (name: String)
        ensures
            name@ == base_name(expr@),
    {
        let bare = trim_leading(expr, '&');
        let length: usize = bare.as_str().unicode_len();
        let dot: usize = find_char(bare.as_str(), '.');
        if dot < length {
            return prefix(bare.as_str(), dot);
        }
        let bracket: usize = find_char(bare.as_str(), '[');
        if bracket < length {
            return prefix(bare.as_str(), bracket);
        }
        bare
    }

    /// Conjugates the verb for a singular or a plural subject.
    pub fn conjugate_verb(&self, is_plural: bool) -> (verb: String)
        ensures
            verb@ == conjugated(self@.verb, is_plural),
    {
        let verb = self.verb.as_str();
        if same_text(verb, "be") {
            if is_plural {
                String::from_str("are")
            } else {
                String::from_str("is")
            }
        } else if same_text(verb, "have") {
            if is_plural {
                String::from_str("have")
            } else {
                String::from_str("has")
            }
        } else if same_text(verb, "contain") {
            if is_plural {
                String::from_str("contain")
            } else {
                String::from_str("contains")
            }
        } else if same_text(verb, "start with") {
            if is_plural {
                String::from_str("start with")
            } else {
                String::from_str("starts with")
            }
        } else if same_text(verb, "end with") {
            if is_plural {
                String::from_str("end with")
            } else {
                String::from_str("ends with")
            }
        } else if is_plural {
            String::from_str(verb)
        } else if ends_with(verb, "s") || ends_with(verb, "x") || ends_with(verb, "z") || ends_with(
            verb,
            "sh",
        ) || ends_with(verb, "ch") {
            String::from_str(verb).concat("es")
        } else if ends_with(verb, "y") && !ends_with(verb, "ay") && !ends_with(verb, "ey")
            && !ends_with(verb, "oy") && !ends_with(verb, "uy") {
            proof {
                reveal_strlit("y");
            }
            let length: usize = verb.unicode_len();
            let stem = prefix(verb, length - 1);
            assert(stem@ =~= self@.verb.drop_last());
            stem.concat("ies")
        } else {
            String::from_str(verb).concat("s")
        }
    }
}

} // verus!
