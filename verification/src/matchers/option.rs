//! Matchers for optional values.

use crate::assertion::{Assertion, ChainView};
use crate::matchers::shown::debug_text;
use crate::sentence::{sentence_of, AssertionSentence};
use std::fmt::Debug;
use vstd::prelude::*;
use vstd::std_specs::cmp::PartialEqSpec;

verus! {

/// Whether `option` holds a value that `expected` equals.
pub open spec fn holds_equal<T: PartialEq>(option: Option<T>, expected: &T) -> bool {
    match option {
        Some(actual) => expected.eq_spec(&actual),
        None => false,
    }
}

/// Matchers for optional values. Each adds one step to the chain.
pub trait OptionMatchers<T: Debug + PartialEq>: Sized {
    /// The chain so far.
    spec fn chain(&self) -> ChainView;

    /// The optional value under test.
    spec fn option(&self) -> Option<T>;

    /// Expects a value to be there.
    fn to_be_some(self) -> (next: Self)
        ensures
            next.chain() == self.chain().add_step(
                sentence_of("be"@, "some"@),
                self.option() is Some,
            ),
            next.option() == self.option(),
    ;

    /// Expects no value to be there.
    fn to_be_none(self) -> (next: Self)
        ensures
            next.chain() == self.chain().add_step(
                sentence_of("be"@, "none"@),
                self.option() is None,
            ),
            next.option() == self.option(),
    ;

    /// Expects a value that `expected` equals to be there; the sentence shows
    /// `expected` as its `Debug` implementation formats it.
    fn to_contain(self, expected: &T) -> (next: Self)
        ensures
            exists|shown: Seq<char>, found: bool|
                {
                    &&& T::obeys_eq_spec() ==> found == holds_equal(self.option(), expected)
                    &&& #[trigger] self.chain().adds(next.chain(), "contain"@, shown, found)
                },
            next.option() == self.option(),
    ;
}

/// Tells whether `option` holds a value that `expected` equals.
fn contains_item<T: PartialEq>(option: &Option<T>, expected: &T) -> (found: bool)
    ensures
        T::obeys_eq_spec() ==> found == holds_equal(*option, expected),
{
    match option {
        Some(actual) => *expected == *actual,
        None => false,
    }
}

/// Adds the step that says whether the expected value was found.
fn contain_step<V, T: Debug>(chain: Assertion<V>, expected: &T, found: bool) -> (next: Assertion<
    V,
>)
    ensures
        exists|shown: Seq<char>| #[trigger] chain@.adds(next@, "contain"@, shown, found),
        next.value == chain.value,
{
    let shown = debug_text(expected);
    let sentence = AssertionSentence::new("contain", shown.as_str());
    let next = chain.push_step(sentence, found);
    assert(chain@.adds(next@, "contain"@, shown@, found));
    next
}

/// The matchers on an optional value held by value.
impl<T: Debug + PartialEq> OptionMatchers<T> for Assertion<Option<T>> {
    open spec fn chain(&self) -> ChainView {
        self@
    }

    open spec fn option(&self) -> Option<T> {
        self.value
    }

    fn to_be_some(self) -> (next: Self) {
        let result = self.value.is_some();
        let sentence = AssertionSentence::new("be", "some");
        self.push_step(sentence, result)
    }

    fn to_be_none(self) -> (next: Self) {
        let result = self.value.is_none();
        let sentence = AssertionSentence::new("be", "none");
        self.push_step(sentence, result)
    }

    fn to_contain(self, expected: &T) -> (next: Self) {
        let found = contains_item(&self.value, expected);
        let next = contain_step(self, expected, found);
        proof {
            let shown = choose|shown: Seq<char>| #[trigger]
                self@.adds(next@, "contain"@, shown, found);
            assert(self.chain().adds(next.chain(), "contain"@, shown, found));
        }
        next
    }
}

/// The matchers on an optional value held by reference.
impl<T: Debug + PartialEq> OptionMatchers<T> for Assertion<&Option<T>> {
    open spec fn chain(&self) -> ChainView {
        self@
    }

    open spec fn option(&self) -> Option<T> {
        *self.value
    }

    fn to_be_some(self) -> (next: Self) {
        let result = self.value.is_some();
        let sentence = AssertionSentence::new("be", "some");
        self.push_step(sentence, result)
    }

    fn to_be_none(self) -> (next: Self) {
        let result = self.value.is_none();
        let sentence = AssertionSentence::new("be", "none");
        self.push_step(sentence, result)
    }

    fn to_contain(self, expected: &T) -> (next: Self) {
        let found = contains_item(self.value, expected);
        let next = contain_step(self, expected, found);
        proof {
            let shown = choose|shown: Seq<char>| #[trigger]
                self@.adds(next@, "contain"@, shown, found);
            assert(self.chain().adds(next.chain(), "contain"@, shown, found));
        }
        next
    }
}

} // verus!
