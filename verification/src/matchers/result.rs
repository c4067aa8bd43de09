//! Matchers for results.

use crate::assertion::{Assertion, ChainView};
use crate::matchers::shown::debug_text;
use crate::sentence::{sentence_of, AssertionSentence};
use std::fmt::Debug;
use vstd::prelude::*;
use vstd::std_specs::cmp::PartialEqSpec;
use vstd::string::*;

verus! {

/// Whether `result` is a success with a value that `expected` equals.
pub open spec fn holds_ok<T, E, U: PartialEq<T>>(result: Result<T, E>, expected: &U) -> bool {
    match result {
        Ok(actual) => expected.eq_spec(&actual),
        Err(_) => false,
    }
}

/// Whether `result` is a failure with an error that `expected` equals.
pub open spec fn holds_err<T, E, U: PartialEq<E>>(result: Result<T, E>, expected: &U) -> bool {
    match result {
        Ok(_) => false,
        Err(actual) => expected.eq_spec(&actual),
    }
}

/// Matchers for results. Each adds one step to the chain.
pub trait ResultMatchers<T: Debug, E: Debug>: Sized {
    /// The chain so far.
    spec fn chain(&self) -> ChainView;

    /// The result under test.
    spec fn outcome(&self) -> Result<T, E>;

    /// Expects a success.
    fn to_be_ok(self) -> (next: Self)
        ensures
            next.chain() == self.chain().add_step(sentence_of("be"@, "ok"@), self.outcome() is Ok),
            next.outcome() == self.outcome(),
    ;

    /// Expects a failure.
    fn to_be_err(self) -> (next: Self)
        ensures
            next.chain() == self.chain().add_step(
                sentence_of("be"@, "err"@),
                self.outcome() is Err,
            ),
            next.outcome() == self.outcome(),
    ;

    /// Expects a success with a value that `expected` equals; the sentence shows
    /// `expected` as its `Debug` implementation formats it.
    fn to_contain_ok<U: PartialEq<T> + Debug>(self, expected: &U) -> (next: Self)
        ensures
            exists|shown: Seq<char>, found: bool|
                {
                    &&& U::obeys_eq_spec() ==> found == holds_ok(self.outcome(), expected)
                    &&& #[trigger] self.chain().adds(
                        next.chain(),
                        "contain"@,
                        "ok value "@ + shown,
                        found,
                    )
                },
            next.outcome() == self.outcome(),
    ;

    /// Expects a failure with an error that `expected` equals; the sentence shows
    /// `expected` as its `Debug` implementation formats it.
    fn to_contain_err<U: PartialEq<E> + Debug>(self, expected: &U) -> (next: Self)
        ensures
            exists|shown: Seq<char>, found: bool|
                {
                    &&& U::obeys_eq_spec() ==> found == holds_err(self.outcome(), expected)
                    &&& #[trigger] self.chain().adds(
                        next.chain(),
                        "contain"@,
                        "err value "@ + shown,
                        found,
                    )
                },
            next.outcome() == self.outcome(),
    ;
}

/// Tells whether `result` is a success with a value that `expected` equals.
fn contains_ok<T, E, U: PartialEq<T>>(result: &Result<T, E>, expected: &U) -> (found: bool)
    ensures
        U::obeys_eq_spec() ==> found == holds_ok(*result, expected),
{
    match result {
        Ok(actual) => *expected == *actual,
        Err(_) => false,
    }
}

/// Tells whether `result` is a failure with an error that `expected` equals.
fn contains_err<T, E, U: PartialEq<E>>(result: &Result<T, E>, expected: &U) -> (found: bool)
    ensures
        U::obeys_eq_spec() ==> found == holds_err(*result, expected),
{
    match result {
        Ok(_) => false,
        Err(actual) => *expected == *actual,
    }
}

/// Adds the step that says whether the expected value was found.
fn contain_step<V, U: Debug>(chain: Assertion<V>, what: &str, expected: &U, found: bool) -> (next:
    Assertion<V>)
    ensures
        exists|shown: Seq<char>| #[trigger] chain@.adds(next@, "contain"@, what@ + shown, found),
        next.value == chain.value,
{
    let shown = debug_text(expected);
    let object = String::from_str(what).concat(shown.as_str());
    let sentence = AssertionSentence::new("contain", object.as_str());
    let next = chain.push_step(sentence, found);
    assert(chain@.adds(next@, "contain"@, what@ + shown@, found));
    next
}

/// The matchers on a result held by value.
impl<T: Debug, E: Debug> ResultMatchers<T, E> for Assertion<Result<T, E>> {
    open spec fn chain(&self) -> ChainView {
        self@
    }

    open spec fn outcome(&self) -> Result<T, E> {
        self.value
    }

    fn to_be_ok(self) -> (next: Self) {
        let result = self.value.is_ok();
        let sentence = AssertionSentence::new("be", "ok");
        self.push_step(sentence, result)
    }

    fn to_be_err(self) -> (next: Self) {
        let result = self.value.is_err();
        let sentence = AssertionSentence::new("be", "err");
        self.push_step(sentence, result)
    }

    fn to_contain_ok<U: PartialEq<T> + Debug>(self, expected: &U) -> (next: Self) {
        let found = contains_ok(&self.value, expected);
        let next = contain_step(self, "ok value ", expected, found);
        proof {
            let shown = choose|shown: Seq<char>| #[trigger]
                self@.adds(next@, "contain"@, "ok value "@ + shown, found);
            assert(self.chain().adds(next.chain(), "contain"@, "ok value "@ + shown, found));
        }
        next
    }

    fn to_contain_err<U: PartialEq<E> + Debug>(self, expected: &U) -> (next: Self) {
        let found = contains_err(&self.value, expected);
        let next = contain_step(self, "err value ", expected, found);
        proof {
            let shown = choose|shown: Seq<char>| #[trigger]
                self@.adds(next@, "contain"@, "err value "@ + shown, found);
            assert(self.chain().adds(next.chain(), "contain"@, "err value "@ + shown, found));
        }
        next
    }
}

/// The matchers on a result held by reference.
impl<T: Debug, E: Debug> ResultMatchers<T, E> for Assertion<&Result<T, E>> {
    open spec fn chain(&self) -> ChainView {
        self@
    }

    open spec fn outcome(&self) -> Result<T, E> {
        *self.value
    }

    fn to_be_ok(self) -> (next: Self) {
        let result = self.value.is_ok();
        let sentence = AssertionSentence::new("be", "ok");
        self.push_step(sentence, result)
    }

    fn to_be_err(self) -> (next: Self) {
        let result = self.value.is_err();
        let sentence = AssertionSentence::new("be", "err");
        self.push_step(sentence, result)
    }

    fn to_contain_ok<U: PartialEq<T> + Debug>(self, expected: &U) -> (next: Self) {
        let found = contains_ok(self.value, expected);
        let next = contain_step(self, "ok value ", expected, found);
        proof {
            let shown = choose|shown: Seq<char>| #[trigger]
                self@.adds(next@, "contain"@, "ok value "@ + shown, found);
            assert(self.chain().adds(next.chain(), "contain"@, "ok value "@ + shown, found));
        }
        next
    }

    fn to_contain_err<U: PartialEq<E> + Debug>(self, expected: &U) -> (next: Self) {
        let found = contains_err(self.value, expected);
        let next = contain_step(self, "err value ", expected, found);
        proof {
            let shown = choose|shown: Seq<char>| #[trigger]
                self@.adds(next@, "contain"@, "err value "@ + shown, found);
            assert(self.chain().adds(next.chain(), "contain"@, "err value "@ + shown, found));
        }
        next
    }
}

} // verus!
