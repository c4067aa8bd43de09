//! Matchers for truth values.

use crate::assertion::{Assertion, ChainView};
use crate::sentence::{sentence_of, AssertionSentence};
use vstd::prelude::*;

verus! {

/// A value that stands for a truth value.
pub trait AsBoolean {
    /// The truth value that the value stands for.
    spec fn truth(&self) -> bool;

    /// Tells whether the value is true.
    fn is_true(&self) -> (b: bool)
        ensures
            b == self.truth(),
    ;

    /// Tells whether the value is false.
    fn is_false(&self) -> (b: bool)
        ensures
            b == !self.truth(),
    ;
}

impl AsBoolean for bool {
    open spec fn truth(&self) -> bool {
        *self
    }

    fn is_true(&self) -> (b: bool) {
        *self
    }

    fn is_false(&self) -> (b: bool) {
        !*self
    }
}

impl AsBoolean for &bool {
    open spec fn truth(&self) -> bool {
        **self
    }

    fn is_true(&self) -> (b: bool) {
        **self
    }

    fn is_false(&self) -> (b: bool) {
        !**self
    }
}

/// Matchers for truth values. Each adds one step to the chain.
pub trait BooleanMatchers: Sized {
    /// The chain so far.
    spec fn chain(&self) -> ChainView;

    /// The truth value under test.
    spec fn holds(&self) -> bool;

    /// Expects the value to be true.
    fn to_be_true(self) -> (next: Self)
        ensures
            next.chain() == self.chain().add_step(sentence_of("be"@, "true"@), self.holds()),
            next.holds() == self.holds(),
    ;

    /// Expects the value to be false.
    fn to_be_false(self) -> (next: Self)
        ensures
            next.chain() == self.chain().add_step(sentence_of("be"@, "false"@), !self.holds()),
            next.holds() == self.holds(),
    ;
}

impl<V: AsBoolean> BooleanMatchers for Assertion<V> {
    open spec fn chain(&self) -> ChainView {
        self@
    }

    open spec fn holds(&self) -> bool {
        self.value.truth()
    }

    fn to_be_true(self) -> (next: Self) {
        let result = self.value.is_true();
        let sentence = AssertionSentence::new("be", "true");
        self.push_step(sentence, result)
    }

    fn to_be_false(self) -> (next: Self) {
        let result = self.value.is_false();
        let sentence = AssertionSentence::new("be", "false");
        self.push_step(sentence, result)
    }
}

} // verus!
