//! Matchers for numbers: sign, parity, comparison and range.

use crate::assertion::{Assertion, ChainView};
use crate::sentence::{sentence_of, AssertionSentence};
use crate::text::{decimal_text, signed_decimal, signed_decimal_text};
use std::ops::Range;
use vstd::prelude::*;
use vstd::string::*;

verus! {

/// A number that the numeric matchers can test: one of the integer types.
pub trait Numeric: Copy {
    /// The number as a mathematical integer.
    spec fn as_int(&self) -> int;

    /// Tells whether the number is above zero.
    fn is_positive(&self) -> (b: bool)
        ensures
            b == (self.as_int() > 0),
    ;

    /// Tells whether the number is below zero.
    fn is_negative(&self) -> (b: bool)
        ensures
            b == (self.as_int() < 0),
    ;

    /// Tells whether the number is zero.
    fn is_zero(&self) -> (b: bool)
        ensures
            b == (self.as_int() == 0),
    ;

    /// Tells whether the number is even.
    fn is_even(&self) -> (b: bool)
        ensures
            b == (self.as_int() % 2 == 0),
    ;

    /// Tells whether the number is odd.
    fn is_odd(&self) -> (b: bool)
        ensures
            b == (self.as_int() % 2 != 0),
    ;

    /// Tells whether the number is below `other`.
    fn is_below(&self, other: &Self) -> (b: bool)
        ensures
            b == (self.as_int() < other.as_int()),
    ;

    /// Writes the number in decimal.
    fn to_text(&self) -> (text: String)
        ensures
            text@ == signed_decimal(self.as_int()),
    ;
}

impl Numeric for i8 {
    open spec fn as_int(&self) -> int {
        *self as int
    }

    fn is_positive(&self) -> (b: bool) {
        *self > 0
    }

    fn is_negative(&self) -> (b: bool) {
        *self < 0
    }

    fn is_zero(&self) -> (b: bool) {
        *self == 0
    }

    fn is_even(&self) -> (b: bool) {
        *self % 2 == 0
    }

    fn is_odd(&self) -> (b: bool) {
        *self % 2 != 0
    }

    fn is_below(&self, other: &Self) -> (b: bool) {
        *self < *other
    }

    fn to_text(&self) -> (text: String) {
        signed_decimal_text(*self as i128)
    }
}

impl Numeric for i16 {
    open spec fn as_int(&self) -> int {
        *self as int
    }

    fn is_positive(&self) -> (b: bool) {
        *self > 0
    }

    fn is_negative(&self) -> (b: bool) {
        *self < 0
    }

    fn is_zero(&self) -> (b: bool) {
        *self == 0
    }

    fn is_even(&self) -> (b: bool) {
        *self % 2 == 0
    }

    fn is_odd(&self) -> (b: bool) {
        *self % 2 != 0
    }

    fn is_below(&self, other: &Self) -> (b: bool) {
        *self < *other
    }

    fn to_text(&self) -> (text: String) {
        signed_decimal_text(*self as i128)
    }
}

impl Numeric for i32 {
    open spec fn as_int(&self) -> int {
        *self as int
    }

    fn is_positive(&self) -> (b: bool) {
        *self > 0
    }

    fn is_negative(&self) -> (b: bool) {
        *self < 0
    }

    fn is_zero(&self) -> (b: bool) {
        *self == 0
    }

    fn is_even(&self) -> (b: bool) {
        *self % 2 == 0
    }

    fn is_odd(&self) -> (b: bool) {
        *self % 2 != 0
    }

    fn is_below(&self, other: &Self) -> (b: bool) {
        *self < *other
    }

    fn to_text(&self) -> (text: String) {
        signed_decimal_text(*self as i128)
    }
}

impl Numeric for i64 {
    open spec fn as_int(&self) -> int {
        *self as int
    }

    fn is_positive(&self) -> (b: bool) {
        *self > 0
    }

    fn is_negative(&self) -> (b: bool) {
        *self < 0
    }

    fn is_zero(&self) -> (b: bool) {
        *self == 0
    }

    fn is_even(&self) -> (b: bool) {
        *self % 2 == 0
    }

    fn is_odd(&self) -> (b: bool) {
        *self % 2 != 0
    }

    fn is_below(&self, other: &Self) -> (b: bool) {
        *self < *other
    }

    fn to_text(&self) -> (text: String) {
        signed_decimal_text(*self as i128)
    }
}

impl Numeric for i128 {
    open spec fn as_int(&self) -> int {
        *self as int
    }

    fn is_positive(&self) -> (b: bool) {
        *self > 0
    }

    fn is_negative(&self) -> (b: bool) {
        *self < 0
    }

    fn is_zero(&self) -> (b: bool) {
        *self == 0
    }

    fn is_even(&self) -> (b: bool) {
        *self % 2 == 0
    }

    fn is_odd(&self) -> (b: bool) {
        *self % 2 != 0
    }

    fn is_below(&self, other: &Self) -> (b: bool) {
        *self < *other
    }

    fn to_text(&self) -> (text: String) {
        signed_decimal_text(*self as i128)
    }
}

impl Numeric for isize {
    open spec fn as_int(&self) -> int {
        *self as int
    }

    fn is_positive(&self) -> (b: bool) {
        *self > 0
    }

    fn is_negative(&self) -> (b: bool) {
        *self < 0
    }

    fn is_zero(&self) -> (b: bool) {
        *self == 0
    }

    fn is_even(&self) -> (b: bool) {
        *self % 2 == 0
    }

    fn is_odd(&self) -> (b: bool) {
        *self % 2 != 0
    }

    fn is_below(&self, other: &Self) -> (b: bool) {
        *self < *other
    }

    fn to_text(&self) -> (text: String) {
        signed_decimal_text(*self as i128)
    }
}

impl Numeric for u8 {
    open spec fn as_int(&self) -> int {
        *self as int
    }

    fn is_positive(&self) -> (b: bool) {
        *self > 0
    }

    fn is_negative(&self) -> (b: bool) {
        false
    }

    fn is_zero(&self) -> (b: bool) {
        *self == 0
    }

    fn is_even(&self) -> (b: bool) {
        *self % 2 == 0
    }

    fn is_odd(&self) -> (b: bool) {
        *self % 2 != 0
    }

    fn is_below(&self, other: &Self) -> (b: bool) {
        *self < *other
    }

    fn to_text(&self) -> (text: String) {
        decimal_text(*self as u128)
    }
}

impl Numeric for u16 {
    open spec fn as_int(&self) -> int {
        *self as int
    }

    fn is_positive(&self) -> (b: bool) {
        *self > 0
    }

    fn is_negative(&self) -> (b: bool) {
        false
    }

    fn is_zero(&self) -> (b: bool) {
        *self == 0
    }

    fn is_even(&self) -> (b: bool) {
        *self % 2 == 0
    }

    fn is_odd(&self) -> (b: bool) {
        *self % 2 != 0
    }

    fn is_below(&self, other: &Self) -> (b: bool) {
        *self < *other
    }

    fn to_text(&self) -> (text: String) {
        decimal_text(*self as u128)
    }
}

impl Numeric for u32 {
    open spec fn as_int(&self) -> int {
        *self as int
    }

    fn is_positive(&self) -> (b: bool) {
        *self > 0
    }

    fn is_negative(&self) -> (b: bool) {
        false
    }

    fn is_zero(&self) -> (b: bool) {
        *self == 0
    }

    fn is_even(&self) -> (b: bool) {
        *self % 2 == 0
    }

    fn is_odd(&self) -> (b: bool) {
        *self % 2 != 0
    }

    fn is_below(&self, other: &Self) -> (b: bool) {
        *self < *other
    }

    fn to_text(&self) -> (text: String) {
        decimal_text(*self as u128)
    }
}

impl Numeric for u64 {
    open spec fn as_int(&self) -> int {
        *self as int
    }

    fn is_positive(&self) -> (b: bool) {
        *self > 0
    }

    fn is_negative(&self) -> (b: bool) {
        false
    }

    fn is_zero(&self) -> (b: bool) {
        *self == 0
    }

    fn is_even(&self) -> (b: bool) {
        *self % 2 == 0
    }

    fn is_odd(&self) -> (b: bool) {
        *self % 2 != 0
    }

    fn is_below(&self, other: &Self) -> (b: bool) {
        *self < *other
    }

    fn to_text(&self) -> (text: String) {
        decimal_text(*self as u128)
    }
}

impl Numeric for u128 {
    open spec fn as_int(&self) -> int {
        *self as int
    }

    fn is_positive(&self) -> (b: bool) {
        *self > 0
    }

    fn is_negative(&self) -> (b: bool) {
        false
    }

    fn is_zero(&self) -> (b: bool) {
        *self == 0
    }

    fn is_even(&self) -> (b: bool) {
        *self % 2 == 0
    }

    fn is_odd(&self) -> (b: bool) {
        *self % 2 != 0
    }

    fn is_below(&self, other: &Self) -> (b: bool) {
        *self < *other
    }

    fn to_text(&self) -> (text: String) {
        decimal_text(*self as u128)
    }
}

impl Numeric for usize {
    open spec fn as_int(&self) -> int {
        *self as int
    }

    fn is_positive(&self) -> (b: bool) {
        *self > 0
    }

    fn is_negative(&self) -> (b: bool) {
        false
    }

    fn is_zero(&self) -> (b: bool) {
        *self == 0
    }

    fn is_even(&self) -> (b: bool) {
        *self % 2 == 0
    }

    fn is_odd(&self) -> (b: bool) {
        *self % 2 != 0
    }

    fn is_below(&self, other: &Self) -> (b: bool) {
        *self < *other
    }

    fn to_text(&self) -> (text: String) {
        decimal_text(*self as u128)
    }
}

/// The object of a comparison: the words and the number compared with.
pub open spec fn compared(words: Seq<char>, number: int) -> Seq<char> {
    words + signed_decimal(number)
}

/// The object of a range check.
pub open spec fn ranged(start: int, end: int) -> Seq<char> {
    "in range "@ + signed_decimal(start) + ".."@ + signed_decimal(end)
}

/// Matchers for numbers. Each adds one step to the chain: a sentence that says what
/// was asked, and whether the number under test met it.
pub trait NumericMatchers<T>: Sized {
    /// The chain so far.
    spec fn chain(&self) -> ChainView;

    /// The number under test.
    spec fn number(&self) -> int;

    /// The integer that a value of the compared type stands for.
    spec fn number_of(value: &T) -> int;

    /// Expects the number to be above zero.
    fn to_be_positive(self) -> (next: Self)
        ensures
            next.chain() == self.chain().add_step(
                sentence_of("be"@, "positive"@),
                self.number() > 0,
            ),
            next.number() == self.number(),
    ;

    /// Expects the number to be below zero.
    fn to_be_negative(self) -> (next: Self)
        ensures
            next.chain() == self.chain().add_step(
                sentence_of("be"@, "negative"@),
                self.number() < 0,
            ),
            next.number() == self.number(),
    ;

    /// Expects the number to be zero.
    fn to_be_zero(self) -> (next: Self)
        ensures
            next.chain() == self.chain().add_step(sentence_of("be"@, "zero"@), self.number() == 0),
            next.number() == self.number(),
    ;

    /// Expects the number to be above `expected`.
    fn to_be_greater_than(self, expected: T) -> (next: Self)
        ensures
            next.chain() == self.chain().add_step(
                sentence_of("be"@, compared("greater than "@, Self::number_of(&expected))),
                self.number() > Self::number_of(&expected),
            ),
            next.number() == self.number(),
    ;

    /// Expects the number to be `expected` or above.
    fn to_be_greater_than_or_equal(self, expected: T) -> (next: Self)
        ensures
            next.chain() == self.chain().add_step(
                sentence_of(
                    "be"@,
                    compared("greater than or equal to "@, Self::number_of(&expected)),
                ),
                self.number() >= Self::number_of(&expected),
            ),
            next.number() == self.number(),
    ;

    /// Expects the number to be below `expected`.
    fn to_be_less_than(self, expected: T) -> (next: Self)
        ensures
            next.chain() == self.chain().add_step(
                sentence_of("be"@, compared("less than "@, Self::number_of(&expected))),
                self.number() < Self::number_of(&expected),
            ),
            next.number() == self.number(),
    ;

    /// Expects the number to be `expected` or below.
    fn to_be_less_than_or_equal(self, expected: T) -> (next: Self)
        ensures
            next.chain() == self.chain().add_step(
                sentence_of("be"@, compared("less than or equal to "@, Self::number_of(&expected))),
                self.number() <= Self::number_of(&expected),
            ),
            next.number() == self.number(),
    ;

    /// Expects the number to be in `range`: at its start or above, and below its end.
    fn to_be_in_range(self, range: Range<T>) -> (next: Self)
        ensures
            next.chain() == self.chain().add_step(
                sentence_of(
                    "be"@,
                    ranged(Self::number_of(&range.start), Self::number_of(&range.end)),
                ),
                Self::number_of(&range.start) <= self.number() < Self::number_of(&range.end),
            ),
            next.number() == self.number(),
    ;

    /// Expects the number to be even.
    fn to_be_even(self) -> (next: Self)
        ensures
            next.chain() == self.chain().add_step(
                sentence_of("be"@, "even"@),
                self.number() % 2 == 0,
            ),
            next.number() == self.number(),
    ;

    /// Expects the number to be odd.
    fn to_be_odd(self) -> (next: Self)
        ensures
            next.chain() == self.chain().add_step(
                sentence_of("be"@, "odd"@),
                self.number() % 2 != 0,
            ),
            next.number() == self.number(),
    ;
}

/// Writes the object of a comparison.
fn comparison<V: Numeric>(words: &str, expected: &V) -> (object: String)
    ensures
        object@ == compared(words@, expected.as_int()),
{
    String::from_str(words).concat(expected.to_text().as_str())
}

/// Writes the object of a range check.
fn range_text<V: Numeric>(range: &Range<V>) -> (object: String)
    ensures
        object@ == ranged(range.start.as_int(), range.end.as_int()),
{
    let mut object = String::from_str("in range ");
    object.append(range.start.to_text().as_str());
    object.append("..");
    object.append(range.end.to_text().as_str());
    object
}

/// The matchers on a number held by value.
impl<V: Numeric> NumericMatchers<V> for Assertion<V> {
    open spec fn chain(&self) -> ChainView {
        self@
    }

    open spec fn number(&self) -> int {
        self.value.as_int()
    }

    open spec fn number_of(value: &V) -> int {
        value.as_int()
    }

    fn to_be_positive(self) -> (next: Self) {
        let result = self.value.is_positive();
        let sentence = AssertionSentence::new("be", "positive");
        self.push_step(sentence, result)
    }

    fn to_be_negative(self) -> (next: Self) {
        let result = self.value.is_negative();
        let sentence = AssertionSentence::new("be", "negative");
        self.push_step(sentence, result)
    }

    fn to_be_zero(self) -> (next: Self) {
        let result = self.value.is_zero();
        let sentence = AssertionSentence::new("be", "zero");
        self.push_step(sentence, result)
    }

    fn to_be_greater_than(self, expected: V) -> (next: Self) {
        let result = expected.is_below(&self.value);
        let sentence = AssertionSentence::new(
            "be",
            comparison("greater than ", &expected).as_str(),
        );
        self.push_step(sentence, result)
    }

    fn to_be_greater_than_or_equal(self, expected: V) -> (next: Self) {
        let result = !self.value.is_below(&expected);
        let sentence = AssertionSentence::new(
            "be",
            comparison("greater than or equal to ", &expected).as_str(),
        );
        self.push_step(sentence, result)
    }

    fn to_be_less_than(self, expected: V) -> (next: Self) {
        let result = self.value.is_below(&expected);
        let sentence = AssertionSentence::new("be", comparison("less than ", &expected).as_str());
        self.push_step(sentence, result)
    }

    fn to_be_less_than_or_equal(self, expected: V) -> (next: Self) {
        let result = !expected.is_below(&self.value);
        let sentence = AssertionSentence::new(
            "be",
            comparison("less than or equal to ", &expected).as_str(),
        );
        self.push_step(sentence, result)
    }

    fn to_be_in_range(self, range: Range<V>) -> (next: Self) {
        let result = !self.value.is_below(&range.start) && self.value.is_below(&range.end);
        let sentence = AssertionSentence::new("be", range_text(&range).as_str());
        self.push_step(sentence, result)
    }

    fn to_be_even(self) -> (next: Self) {
        let result = self.value.is_even();
        let sentence = AssertionSentence::new("be", "even");
        self.push_step(sentence, result)
    }

    fn to_be_odd(self) -> (next: Self) {
        let result = self.value.is_odd();
        let sentence = AssertionSentence::new("be", "odd");
        self.push_step(sentence, result)
    }
}

/// The matchers on a number held by reference.
impl<V: Numeric> NumericMatchers<V> for Assertion<&V> {
    open spec fn chain(&self) -> ChainView {
        self@
    }

    open spec fn number(&self) -> int {
        self.value.as_int()
    }

    open spec fn number_of(value: &V) -> int {
        value.as_int()
    }

    fn to_be_positive(self) -> (next: Self) {
        let result = self.value.is_positive();
        let sentence = AssertionSentence::new("be", "positive");
        self.push_step(sentence, result)
    }

    fn to_be_negative(self) -> (next: Self) {
        let result = self.value.is_negative();
        let sentence = AssertionSentence::new("be", "negative");
        self.push_step(sentence, result)
    }

    fn to_be_zero(self) -> (next: Self) {
        let result = self.value.is_zero();
        let sentence = AssertionSentence::new("be", "zero");
        self.push_step(sentence, result)
    }

    fn to_be_greater_than(self, expected: V) -> (next: Self) {
        let result = expected.is_below(&self.value);
        let sentence = AssertionSentence::new(
            "be",
            comparison("greater than ", &expected).as_str(),
        );
        self.push_step(sentence, result)
    }

    fn to_be_greater_than_or_equal(self, expected: V) -> (next: Self) {
        let result = !self.value.is_below(&expected);
        let sentence = AssertionSentence::new(
            "be",
            comparison("greater than or equal to ", &expected).as_str(),
        );
        self.push_step(sentence, result)
    }

    fn to_be_less_than(self, expected: V) -> (next: Self) {
        let result = self.value.is_below(&expected);
        let sentence = AssertionSentence::new("be", comparison("less than ", &expected).as_str());
        self.push_step(sentence, result)
    }

    fn to_be_less_than_or_equal(self, expected: V) -> (next: Self) {
        let result = !expected.is_below(&self.value);
        let sentence = AssertionSentence::new(
            "be",
            comparison("less than or equal to ", &expected).as_str(),
        );
        self.push_step(sentence, result)
    }

    fn to_be_in_range(self, range: Range<V>) -> (next: Self) {
        let result = !self.value.is_below(&range.start) && self.value.is_below(&range.end);
        let sentence = AssertionSentence::new("be", range_text(&range).as_str());
        self.push_step(sentence, result)
    }

    fn to_be_even(self) -> (next: Self) {
        let result = self.value.is_even();
        let sentence = AssertionSentence::new("be", "even");
        self.push_step(sentence, result)
    }

    fn to_be_odd(self) -> (next: Self) {
        let result = self.value.is_odd();
        let sentence = AssertionSentence::new("be", "odd");
        self.push_step(sentence, result)
    }
}

} // verus!
