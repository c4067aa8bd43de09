//! Matchers for equality with an expected value.

use crate::assertion::{Assertion, ChainView};
use crate::matchers::shown::debug_text;
use crate::sentence::AssertionSentence;
use std::fmt::Debug;
use vstd::prelude::*;
use vstd::std_specs::cmp::PartialEqSpec;
use vstd::string::*;

verus! {

/// Matchers for equality. Each adds one step to the chain: the sentence shows the
/// expected value as its `Debug` implementation formats it, and the outcome is what
/// `==` gives for the expected value and the value under test.
pub trait EqualityMatchers<T: PartialEq>: Sized {
    /// The chain so far.
    spec fn chain(&self) -> ChainView;

    /// The value under test.
    spec fn subject(&self) -> T;

    /// Expects the value to equal `expected`.
    fn to_equal(self, expected: T) -> (next: Self)
        ensures
            exists|shown: Seq<char>, found: bool|
                {
                    &&& T::obeys_eq_spec() ==> found == expected.eq_spec(&self.subject())
                    &&& #[trigger] self.chain().adds(
                        next.chain(),
                        "be"@,
                        "equal to "@ + shown,
                        found,
                    )
                },
            next.subject() == self.subject(),
    ;

    /// Expects the value to equal `expected`; the same as `to_equal`, under a name
    /// that no other matcher has.
    fn to_equal_value(self, expected: T) -> (next: Self)
        ensures
            exists|shown: Seq<char>, found: bool|
                {
                    &&& T::obeys_eq_spec() ==> found == expected.eq_spec(&self.subject())
                    &&& #[trigger] self.chain().adds(
                        next.chain(),
                        "be"@,
                        "equal to "@ + shown,
                        found,
                    )
                },
            next.subject() == self.subject(),
    ;
}

/// Adds the step of an equality check whose outcome is known.
fn equal_step<V, T: Debug>(chain: Assertion<V>, expected: &T, found: bool) -> (next: Assertion<V>)
    ensures
        exists|shown: Seq<char>| #[trigger]
            chain@.adds(next@, "be"@, "equal to "@ + shown, found),
        next.value == chain.value,
{
    let shown = debug_text(expected);
    let object = String::from_str("equal to ").concat(shown.as_str());
    let sentence = AssertionSentence::new("be", object.as_str());
    let next = chain.push_step(sentence, found);
    assert(chain@.adds(next@, "be"@, "equal to "@ + shown@, found));
    next
}

/// The matchers on a value held by value.
impl<T: Debug + PartialEq> EqualityMatchers<T> for Assertion<T> {
    open spec fn chain(&self) -> ChainView {
        self@
    }

    open spec fn subject(&self) -> T {
        self.value
    }

    fn to_equal(self, expected: T) -> (next: Self) {
        self.to_equal_value(expected)
    }

    fn to_equal_value(self, expected: T) -> (next: Self) {
        let found = expected == self.value;
        let next = equal_step(self, &expected, found);
        proof {
            let shown = choose|shown: Seq<char>| #[trigger]
                self@.adds(next@, "be"@, "equal to "@ + shown, found);
            assert(EqualityMatchers::<T>::chain(&self).adds(
                EqualityMatchers::<T>::chain(&next),
                "be"@,
                "equal to "@ + shown,
                found,
            ));
        }
        next
    }
}

/// The matchers on a value held by reference.
impl<T: Debug + PartialEq> EqualityMatchers<T> for Assertion<&T> {
    open spec fn chain(&self) -> ChainView {
        self@
    }

    open spec fn subject(&self) -> T {
        *self.value
    }

    fn to_equal(self, expected: T) -> (next: Self) {
        self.to_equal_value(expected)
    }

    fn to_equal_value(self, expected: T) -> (next: Self) {
        let found = expected == *self.value;
        let next = equal_step(self, &expected, found);
        proof {
            let shown = choose|shown: Seq<char>| #[trigger]
                self@.adds(next@, "be"@, "equal to "@ + shown, found);
            assert(EqualityMatchers::<T>::chain(&self).adds(
                EqualityMatchers::<T>::chain(&next),
                "be"@,
                "equal to "@ + shown,
                found,
            ));
        }
        next
    }
}

} // verus!
