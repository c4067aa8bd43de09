//! Matchers for collections: slices, vectors and arrays.

use crate::assertion::{Assertion, ChainView};
use crate::matchers::shown::debug_text;
use crate::sentence::{sentence_of, AssertionSentence};
use crate::text::{decimal, decimal_text};
use std::fmt::Debug;
use vstd::prelude::*;
use vstd::std_specs::cmp::PartialEqSpec;
use vstd::string::*;

verus! {

/// Whether `expected` equals one of `items`.
pub open spec fn has_item<T, U: PartialEq<T>>(items: Seq<T>, expected: &U) -> bool {
    exists|i: int| 0 <= i < items.len() && expected.eq_spec(&#[trigger] items[i])
}

/// Whether each of `expected` equals one of `items`.
pub open spec fn has_all<T, U: PartialEq<T>>(items: Seq<T>, expected: Seq<U>) -> bool {
    forall|j: int| 0 <= j < expected.len() ==> has_item(items, &#[trigger] expected[j])
}

/// Whether `expected` and `items` have the same length and are equal place by
/// place.
pub open spec fn same_items<T, U: PartialEq<T>>(items: Seq<T>, expected: Seq<U>) -> bool {
    items.len() == expected.len() && forall|i: int|
        0 <= i < items.len() ==> (#[trigger] expected[i]).eq_spec(&items[i])
}

/// What is added to the object of an equality check when the lengths differ.
pub open spec fn length_note(items: nat, expected: nat) -> Seq<char> {
    if items != expected {
        " (different lengths)"@
    } else {
        Seq::empty()
    }
}

/// Matchers for collections. Each adds one step to the chain. Where a sentence
/// shows a value, it shows it as its `Debug` implementation formats it.
pub trait CollectionMatchers<T>: Sized {
    /// The chain so far.
    spec fn chain(&self) -> ChainView;

    /// The items of the collection under test, in order.
    spec fn items(&self) -> Seq<T>;

    /// Expects the collection to have no items.
    fn to_be_empty(self) -> (next: Self)
        ensures
            next.chain() == self.chain().add_step(
                sentence_of("be"@, "empty"@),
                self.items().len() == 0,
            ),
            next.items() == self.items(),
    ;

    /// Expects the collection to have `expected` items.
    fn to_have_length(self, expected: usize) -> (next: Self)
        ensures
            next.chain() == self.chain().add_step(
                sentence_of("have"@, "length "@ + decimal(expected as nat)),
                self.items().len() == expected,
            ),
            next.items() == self.items(),
    ;

    /// Expects `expected` to equal one of the items.
    fn to_contain<U: PartialEq<T> + Debug>(self, expected: U) -> (next: Self)
        ensures
            exists|shown: Seq<char>, found: bool|
                {
                    &&& U::obeys_eq_spec() ==> found == has_item(self.items(), &expected)
                    &&& #[trigger] self.chain().adds(next.chain(), "contain"@, shown, found)
                },
            next.items() == self.items(),
    ;

    /// Expects each of `expected` to equal one of the items.
    fn to_contain_all_of<U: PartialEq<T> + Debug>(self, expected: &[U]) -> (next: Self)
        ensures
            exists|shown: Seq<char>, found: bool|
                {
                    &&& U::obeys_eq_spec() ==> found == has_all(self.items(), expected@)
                    &&& #[trigger] self.chain().adds(
                        next.chain(),
                        "contain"@,
                        "all of "@ + shown,
                        found,
                    )
                },
            next.items() == self.items(),
    ;

    /// Expects the items to be as many as `expected` and equal to them place by
    /// place; the sentence notes it when the lengths differ.
    fn to_equal_collection<U: PartialEq<T> + Debug>(self, expected: &[U]) -> (next: Self)
        ensures
            exists|shown: Seq<char>, found: bool|
                {
                    &&& U::obeys_eq_spec() ==> found == same_items(self.items(), expected@)
                    &&& #[trigger] self.chain().adds(
                        next.chain(),
                        "equal"@,
                        "collection "@ + shown + length_note(self.items().len(), expected@.len()),
                        found,
                    )
                },
            next.items() == self.items(),
    ;
}

/// Helper methods on collections.
pub trait CollectionExtensions<T> {
    /// The items of the collection, in order.
    spec fn items(&self) -> Seq<T>;

    /// The first item, if there is one.
    fn first(&self) -> (item: Option<&T>)
        ensures
            match item {
                Some(item) => self.items().len() > 0 && *item == self.items().first(),
                None => self.items().len() == 0,
            },
    ;

    /// The last item, if there is one.
    fn last(&self) -> (item: Option<&T>)
        ensures
            match item {
                Some(item) => self.items().len() > 0 && *item == self.items().last(),
                None => self.items().len() == 0,
            },
    ;
}

/// The first item of a slice, if there is one.
fn first_of<T>(items: &[T]) -> (item: Option<&T>)
    ensures
        match item {
            Some(item) => items@.len() > 0 && *item == items@.first(),
            None => items@.len() == 0,
        },
{
    if items.len() > 0 {
        Some(&items[0])
    } else {
        None
    }
}

/// The last item of a slice, if there is one.
fn last_of<T>(items: &[T]) -> (item: Option<&T>)
    ensures
        match item {
            Some(item) => items@.len() > 0 && *item == items@.last(),
            None => items@.len() == 0,
        },
{
    if items.len() > 0 {
        Some(&items[items.len() - 1])
    } else {
        None
    }
}

impl<T> CollectionExtensions<T> for Vec<T> {
    open spec fn items(&self) -> Seq<T> {
        self@
    }

    fn first(&self) -> (item: Option<&T>) {
        first_of(self.as_slice())
    }

    fn last(&self) -> (item: Option<&T>) {
        last_of(self.as_slice())
    }
}

impl<T> CollectionExtensions<T> for &[T] {
    open spec fn items(&self) -> Seq<T> {
        self@
    }

    fn first(&self) -> (item: Option<&T>) {
        first_of(*self)
    }

    fn last(&self) -> (item: Option<&T>) {
        last_of(*self)
    }
}

/// Tells whether `expected` equals one of `items`.
fn contains_item<T, U: PartialEq<T>>(items: &[T], expected: &U) -> (found: bool)
    ensures
        U::obeys_eq_spec() ==> found == has_item(items@, expected),
{
    let mut i: usize = 0;
    while i < items.len()
        invariant
            i <= items.len(),
            U::obeys_eq_spec() ==> forall|k: int|
                0 <= k < i ==> !expected.eq_spec(&#[trigger] items@[k]),
        decreases items.len() - i,
    {
        if *expected == items[i] {
            return true;
        }
        i += 1;
    }
    false
}

/// Tells whether each of `expected` equals one of `items`.
fn contains_all_items<T, U: PartialEq<T>>(items: &[T], expected: &[U]) -> (found: bool)
    ensures
        U::obeys_eq_spec() ==> found == has_all(items@, expected@),
{
    let mut j: usize = 0;
    while j < expected.len()
        invariant
            j <= expected.len(),
            U::obeys_eq_spec() ==> forall|k: int|
                0 <= k < j ==> has_item(items@, &#[trigger] expected@[k]),
        decreases expected.len() - j,
    {
        if !contains_item(items, &expected[j]) {
            return false;
        }
        j += 1;
    }
    true
}

/// Tells whether `items` and `expected` are equal place by place.
fn equals_items<T, U: PartialEq<T>>(items: &[T], expected: &[U]) -> (found: bool)
    ensures
        U::obeys_eq_spec() ==> found == same_items(items@, expected@),
{
    if items.len() != expected.len() {
        return false;
    }
    let mut i: usize = 0;
    while i < items.len()
        invariant
            i <= items.len(),
            items.len() == expected.len(),
            U::obeys_eq_spec() ==> forall|k: int|
                0 <= k < i ==> (#[trigger] expected@[k]).eq_spec(&items@[k]),
        decreases items.len() - i,
    {
        if !(expected[i] == items[i]) {
            return false;
        }
        i += 1;
    }
    true
}

/// Adds the step of an emptiness check.
fn empty_step<V>(chain: Assertion<V>, count: usize) -> (next: Assertion<V>)
    ensures
        next@ == chain@.add_step(sentence_of("be"@, "empty"@), count == 0),
        next.value == chain.value,
{
    let sentence = AssertionSentence::new("be", "empty");
    chain.push_step(sentence, count == 0)
}

/// Adds the step of a length check.
fn length_step<V>(chain: Assertion<V>, count: usize, expected: usize) -> (next: Assertion<V>)
    ensures
        next@ == chain@.add_step(
            sentence_of("have"@, "length "@ + decimal(expected as nat)),
            count == expected,
        ),
        next.value == chain.value,
{
    let object = String::from_str("length ").concat(decimal_text(expected as u128).as_str());
    let sentence = AssertionSentence::new("have", object.as_str());
    chain.push_step(sentence, count == expected)
}

/// Adds a step whose object is some words, a shown value and a closing note.
fn shown_step<V, U: Debug + ?Sized>(
    chain: Assertion<V>,
    verb: &str,
    words: &str,
    expected: &U,
    note: &str,
    found: bool,
) -> (next: Assertion<V>)
    ensures
        exists|shown: Seq<char>| #[trigger]
            chain@.adds(next@, verb@, words@ + shown + note@, found),
        next.value == chain.value,
{
    let shown = debug_text(expected);
    let mut object = String::from_str(words);
    object.append(shown.as_str());
    object.append(note);
    let sentence = AssertionSentence::new(verb, object.as_str());
    let next = chain.push_step(sentence, found);
    assert(chain@.adds(next@, verb@, words@ + shown@ + note@, found));
    next
}

/// The matchers on a slice.
impl<T> CollectionMatchers<T> for Assertion<&[T]> {
    open spec fn chain(&self) -> ChainView {
        self@
    }

    open spec fn items(&self) -> Seq<T> {
        self.value@
    }

    fn to_be_empty(self) -> (next: Self) {
        let count: usize = self.value.len();
        empty_step(self, count)
    }

    fn to_have_length(self, expected: usize) -> (next: Self) {
        let count: usize = self.value.len();
        length_step(self, count, expected)
    }

    fn to_contain<U: PartialEq<T> + Debug>(self, expected: U) -> (next: Self) {
        let found = contains_item(self.value, &expected);
        let next = shown_step(self, "contain", "", &expected, "", found);
        proof {
            reveal_strlit("");
            let shown = choose|shown: Seq<char>| #[trigger]
                self@.adds(next@, "contain"@, ""@ + shown + ""@, found);
            assert(""@ + shown + ""@ =~= shown);
            assert(self.chain().adds(next.chain(), "contain"@, shown, found));
        }
        next
    }

    fn to_contain_all_of<U: PartialEq<T> + Debug>(self, expected: &[U]) -> (next: Self) {
        let found = contains_all_items(self.value, expected);
        let next = shown_step(self, "contain", "all of ", expected, "", found);
        proof {
            reveal_strlit("");
            let shown = choose|shown: Seq<char>| #[trigger]
                self@.adds(next@, "contain"@, "all of "@ + shown + ""@, found);
            assert("all of "@ + shown + ""@ =~= "all of "@ + shown);
            assert(self.chain().adds(next.chain(), "contain"@, "all of "@ + shown, found));
        }
        next
    }

    fn to_equal_collection<U: PartialEq<T> + Debug>(self, expected: &[U]) -> (next: Self) {
        let found = equals_items(self.value, expected);
        let differ = self.value.len() != expected.len();
        let note = if differ {
            " (different lengths)"
        } else {
            ""
        };
        proof {
            reveal_strlit("");
            assert(note@ =~= length_note(self.items().len(), expected@.len()));
        }
        let next = shown_step(self, "equal", "collection ", expected, note, found);
        proof {
            let shown = choose|shown: Seq<char>| #[trigger]
                self@.adds(next@, "equal"@, "collection "@ + shown + note@, found);
            assert(self.chain().adds(
                next.chain(),
                "equal"@,
                "collection "@ + shown + length_note(self.items().len(), expected@.len()),
                found,
            ));
        }
        next
    }
}

/// The matchers on a vector held by reference.
impl<T> CollectionMatchers<T> for Assertion<&Vec<T>> {
    open spec fn chain(&self) -> ChainView {
        self@
    }

    open spec fn items(&self) -> Seq<T> {
        self.value@
    }

    fn to_be_empty(self) -> (next: Self) {
        let count: usize = self.value.as_slice().len();
        empty_step(self, count)
    }

    fn to_have_length(self, expected: usize) -> (next: Self) {
        let count: usize = self.value.as_slice().len();
        length_step(self, count, expected)
    }

    fn to_contain<U: PartialEq<T> + Debug>(self, expected: U) -> (next: Self) {
        let found = contains_item(self.value.as_slice(), &expected);
        let next = shown_step(self, "contain", "", &expected, "", found);
        proof {
            reveal_strlit("");
            let shown = choose|shown: Seq<char>| #[trigger]
                self@.adds(next@, "contain"@, ""@ + shown + ""@, found);
            assert(""@ + shown + ""@ =~= shown);
            assert(self.chain().adds(next.chain(), "contain"@, shown, found));
        }
        next
    }

    fn to_contain_all_of<U: PartialEq<T> + Debug>(self, expected: &[U]) -> (next: Self) {
        let found = contains_all_items(self.value.as_slice(), expected);
        let next = shown_step(self, "contain", "all of ", expected, "", found);
        proof {
            reveal_strlit("");
            let shown = choose|shown: Seq<char>| #[trigger]
                self@.adds(next@, "contain"@, "all of "@ + shown + ""@, found);
            assert("all of "@ + shown + ""@ =~= "all of "@ + shown);
            assert(self.chain().adds(next.chain(), "contain"@, "all of "@ + shown, found));
        }
        next
    }

    fn to_equal_collection<U: PartialEq<T> + Debug>(self, expected: &[U]) -> (next: Self) {
        let found = equals_items(self.value.as_slice(), expected);
        let differ = self.value.as_slice().len() != expected.len();
        let note = if differ {
            " (different lengths)"
        } else {
            ""
        };
        proof {
            reveal_strlit("");
            assert(note@ =~= length_note(self.items().len(), expected@.len()));
        }
        let next = shown_step(self, "equal", "collection ", expected, note, found);
        proof {
            let shown = choose|shown: Seq<char>| #[trigger]
                self@.adds(next@, "equal"@, "collection "@ + shown + note@, found);
            assert(self.chain().adds(
                next.chain(),
                "equal"@,
                "collection "@ + shown + length_note(self.items().len(), expected@.len()),
                found,
            ));
        }
        next
    }
}

/// The matchers on a vector held by value.
impl<T> CollectionMatchers<T> for Assertion<Vec<T>> {
    open spec fn chain(&self) -> ChainView {
        self@
    }

    open spec fn items(&self) -> Seq<T> {
        self.value@
    }

    fn to_be_empty(self) -> (next: Self) {
        let count: usize = self.value.as_slice().len();
        empty_step(self, count)
    }

    fn to_have_length(self, expected: usize) -> (next: Self) {
        let count: usize = self.value.as_slice().len();
        length_step(self, count, expected)
    }

    fn to_contain<U: PartialEq<T> + Debug>(self, expected: U) -> (next: Self) {
        let found = contains_item(self.value.as_slice(), &expected);
        let next = shown_step(self, "contain", "", &expected, "", found);
        proof {
            reveal_strlit("");
            let shown = choose|shown: Seq<char>| #[trigger]
                self@.adds(next@, "contain"@, ""@ + shown + ""@, found);
            assert(""@ + shown + ""@ =~= shown);
            assert(self.chain().adds(next.chain(), "contain"@, shown, found));
        }
        next
    }

    fn to_contain_all_of<U: PartialEq<T> + Debug>(self, expected: &[U]) -> (next: Self) {
        let found = contains_all_items(self.value.as_slice(), expected);
        let next = shown_step(self, "contain", "all of ", expected, "", found);
        proof {
            reveal_strlit("");
            let shown = choose|shown: Seq<char>| #[trigger]
                self@.adds(next@, "contain"@, "all of "@ + shown + ""@, found);
            assert("all of "@ + shown + ""@ =~= "all of "@ + shown);
            assert(self.chain().adds(next.chain(), "contain"@, "all of "@ + shown, found));
        }
        next
    }

    fn to_equal_collection<U: PartialEq<T> + Debug>(self, expected: &[U]) -> (next: Self) {
        let found = equals_items(self.value.as_slice(), expected);
        let differ = self.value.as_slice().len() != expected.len();
        let note = if differ {
            " (different lengths)"
        } else {
            ""
        };
        proof {
            reveal_strlit("");
            assert(note@ =~= length_note(self.items().len(), expected@.len()));
        }
        let next = shown_step(self, "equal", "collection ", expected, note, found);
        proof {
            let shown = choose|shown: Seq<char>| #[trigger]
                self@.adds(next@, "equal"@, "collection "@ + shown + note@, found);
            assert(self.chain().adds(
                next.chain(),
                "equal"@,
                "collection "@ + shown + length_note(self.items().len(), expected@.len()),
                found,
            ));
        }
        next
    }
}

/// The matchers on an array held by reference.
impl<T, const N: usize> CollectionMatchers<T> for Assertion<&[T; N]> {
    open spec fn chain(&self) -> ChainView {
        self@
    }

    open spec fn items(&self) -> Seq<T> {
        self.value@
    }

    fn to_be_empty(self) -> (next: Self) {
        let count: usize = self.value.as_slice().len();
        empty_step(self, count)
    }

    fn to_have_length(self, expected: usize) -> (next: Self) {
        let count: usize = self.value.as_slice().len();
        length_step(self, count, expected)
    }

    fn to_contain<U: PartialEq<T> + Debug>(self, expected: U) -> (next: Self) {
        let found = contains_item(self.value.as_slice(), &expected);
        let next = shown_step(self, "contain", "", &expected, "", found);
        proof {
            reveal_strlit("");
            let shown = choose|shown: Seq<char>| #[trigger]
                self@.adds(next@, "contain"@, ""@ + shown + ""@, found);
            assert(""@ + shown + ""@ =~= shown);
            assert(self.chain().adds(next.chain(), "contain"@, shown, found));
        }
        next
    }

    fn to_contain_all_of<U: PartialEq<T> + Debug>(self, expected: &[U]) -> (next: Self) {
        let found = contains_all_items(self.value.as_slice(), expected);
        let next = shown_step(self, "contain", "all of ", expected, "", found);
        proof {
            reveal_strlit("");
            let shown = choose|shown: Seq<char>| #[trigger]
                self@.adds(next@, "contain"@, "all of "@ + shown + ""@, found);
            assert("all of "@ + shown + ""@ =~= "all of "@ + shown);
            assert(self.chain().adds(next.chain(), "contain"@, "all of "@ + shown, found));
        }
        next
    }

    fn to_equal_collection<U: PartialEq<T> + Debug>(self, expected: &[U]) -> (next: Self) {
        let found = equals_items(self.value.as_slice(), expected);
        let differ = self.value.as_slice().len() != expected.len();
        let note = if differ {
            " (different lengths)"
        } else {
            ""
        };
        proof {
            reveal_strlit("");
            assert(note@ =~= length_note(self.items().len(), expected@.len()));
        }
        let next = shown_step(self, "equal", "collection ", expected, note, found);
        proof {
            let shown = choose|shown: Seq<char>| #[trigger]
                self@.adds(next@, "equal"@, "collection "@ + shown + note@, found);
            assert(self.chain().adds(
                next.chain(),
                "equal"@,
                "collection "@ + shown + length_note(self.items().len(), expected@.len()),
                found,
            ));
        }
        next
    }
}

} // verus!
