//! Matchers for hash maps.

use crate::assertion::{Assertion, ChainView};
use crate::matchers::shown::debug_text;
use crate::sentence::{sentence_of, AssertionSentence};
use crate::text::{decimal, decimal_text};
use std::borrow::Borrow;
use std::collections::hash_map::RandomState;
use std::collections::HashMap;
use std::fmt::Debug;
use std::hash::Hash;
use vstd::prelude::*;
use vstd::std_specs::cmp::PartialEqSpec;
use vstd::std_specs::hash::{
    builds_valid_hashers, contains_borrowed_key, obeys_key_model, spec_hash_map_len,
};
use vstd::string::*;

verus! {

/// Whether the keys of type `K` hash and compare as a map needs them to, so that
/// what the map's own operations return is known.
pub open spec fn keys_behave<K>() -> bool {
    obeys_key_model::<K>() && builds_valid_hashers::<RandomState>()
}

/// Whether `entries` maps `key` to a value that equals `value`.
pub open spec fn has_entry<K, V: PartialEq>(entries: Map<K, V>, key: &K, value: &V) -> bool {
    entries.contains_key(*key) && entries[*key].eq_spec(value)
}

/// Matchers for hash maps. Each adds one step to the chain. Where a sentence shows
/// a key or a value, it shows it as its `Debug` implementation formats it.
pub trait HashMapMatchers<K, V>: Sized {
    /// The chain so far.
    spec fn chain(&self) -> ChainView;

    /// The entries of the map under test.
    spec fn entries(&self) -> Map<K, V>;

    /// The number of entries, as the map counts them; it is the size of
    /// `entries()` where the keys behave.
    spec fn count(&self) -> usize;

    /// Expects the map to have no entries.
    fn to_be_empty(self) -> (next: Self)
        ensures
            next.chain() == self.chain().add_step(
                sentence_of("be"@, "empty"@),
                self.entries().is_empty(),
            ),
            next.entries() == self.entries(),
    ;

    /// Expects the map to have `expected` entries.
    fn to_have_length(self, expected: usize) -> (next: Self)
        ensures
            next.chain() == self.chain().add_step(
                sentence_of("have"@, "length "@ + decimal(expected as nat)),
                self.count() == expected,
            ),
            keys_behave::<K>() ==> self.count() == self.entries().len(),
            next.entries() == self.entries(),
    ;

    /// Expects the map to have an entry for `key`.
    fn to_contain_key<Q>(self, key: &Q) -> (next: Self) where
        K: Borrow<Q> + Hash + Eq,
        Q: Hash + Eq + Debug + ?Sized,

        ensures
            exists|shown: Seq<char>, found: bool|
                {
                    &&& keys_behave::<K>() ==> found == contains_borrowed_key(self.entries(), key)
                    &&& #[trigger] self.chain().adds(
                        next.chain(),
                        "contain"@,
                        "key "@ + shown,
                        found,
                    )
                },
            next.entries() == self.entries(),
    ;

    /// Expects the map to have an entry for `key` whose value equals `value`.
    fn to_contain_entry(self, key: &K, value: &V) -> (next: Self) where
        K: Hash + Eq + Debug,
        V: PartialEq + Debug,

        ensures
            exists|shown_key: Seq<char>, shown_value: Seq<char>, found: bool|
                {
                    &&& keys_behave::<K>() && V::obeys_eq_spec() ==> found == has_entry(
                        self.entries(),
                        key,
                        value,
                    )
                    &&& #[trigger] self.chain().adds(
                        next.chain(),
                        "contain"@,
                        "entry ("@ + shown_key + ", "@ + shown_value + ")"@,
                        found,
                    )
                },
            next.entries() == self.entries(),
    ;
}

/// Adds the step of a length check.
fn length_step<M>(chain: Assertion<M>, count: usize, expected: usize) -> (next: Assertion<M>)
    ensures
        next@ == chain@.add_step(
            sentence_of("have"@, "length "@ + decimal(expected as nat)),
            count == expected,
        ),
        next.value == chain.value,
{
    let object = String::from_str("length ").concat(decimal_text(expected as u128).as_str());
    let sentence = AssertionSentence::new("have", object.as_str());
    chain.push_step(sentence, count == expected)
}

/// Adds the step of a check for a key.
fn key_step<M, Q: Debug + ?Sized>(chain: Assertion<M>, key: &Q, found: bool) -> (next: Assertion<M>)
    ensures
        exists|shown: Seq<char>| #[trigger] chain@.adds(next@, "contain"@, "key "@ + shown, found),
        next.value == chain.value,
{
    let shown = debug_text(key);
    let object = String::from_str("key ").concat(shown.as_str());
    let sentence = AssertionSentence::new("contain", object.as_str());
    let next = chain.push_step(sentence, found);
    assert(chain@.adds(next@, "contain"@, "key "@ + shown@, found));
    next
}

/// Adds the step of a check for an entry.
fn entry_step<M, K: Debug, V: Debug>(chain: Assertion<M>, key: &K, value: &V, found: bool) -> (next:
    Assertion<M>)
    ensures
        exists|shown_key: Seq<char>, shown_value: Seq<char>| #[trigger]
            chain@.adds(
                next@,
                "contain"@,
                "entry ("@ + shown_key + ", "@ + shown_value + ")"@,
                found,
            ),
        next.value == chain.value,
{
    let shown_key = debug_text(key);
    let shown_value = debug_text(value);
    let mut object = String::from_str("entry (");
    object.append(shown_key.as_str());
    object.append(", ");
    object.append(shown_value.as_str());
    object.append(")");
    let sentence = AssertionSentence::new("contain", object.as_str());
    let next = chain.push_step(sentence, found);
    assert(chain@.adds(
        next@,
        "contain"@,
        "entry ("@ + shown_key@ + ", "@ + shown_value@ + ")"@,
        found,
    ));
    next
}

/// Tells whether `map` has an entry for `key` whose value equals `value`.
fn contains_entry<K: Hash + Eq, V: PartialEq>(map: &HashMap<K, V>, key: &K, value: &V) -> (found:
    bool)
    ensures
        keys_behave::<K>() && V::obeys_eq_spec() ==> found == has_entry(map@, key, value),
{
    broadcast use vstd::std_specs::hash::group_hash_axioms;

    match map.get(key) {
        Some(held) => *held == *value,
        None => false,
    }
}

/// The matchers on a map held by reference.
impl<K, V> HashMapMatchers<K, V> for Assertion<&HashMap<K, V>> {
    open spec fn chain(&self) -> ChainView {
        self@
    }

    open spec fn entries(&self) -> Map<K, V> {
        self.value@
    }

    open spec fn count(&self) -> usize {
        spec_hash_map_len(self.value)
    }

    fn to_be_empty(self) -> (next: Self) {
        let result = self.value.is_empty();
        let sentence = AssertionSentence::new("be", "empty");
        self.push_step(sentence, result)
    }

    fn to_have_length(self, expected: usize) -> (next: Self) {
        broadcast use vstd::std_specs::hash::group_hash_axioms;

        let count: usize = self.value.len();
        length_step(self, count, expected)
    }

    fn to_contain_key<Q>(self, key: &Q) -> (next: Self) where
        K: Borrow<Q> + Hash + Eq,
        Q: Hash + Eq + Debug + ?Sized,
     {
        let found = self.value.contains_key(key);
        let next = key_step(self, key, found);
        proof {
            let shown = choose|shown: Seq<char>| #[trigger]
                self@.adds(next@, "contain"@, "key "@ + shown, found);
            assert(self.chain().adds(next.chain(), "contain"@, "key "@ + shown, found));
        }
        next
    }

    fn to_contain_entry(self, key: &K, value: &V) -> (next: Self) where
        K: Hash + Eq + Debug,
        V: PartialEq + Debug,
     {
        let found = contains_entry(self.value, key, value);
        let next = entry_step(self, key, value, found);
        proof {
            let (shown_key, shown_value) = choose|shown_key: Seq<char>, shown_value: Seq<char>|
                #[trigger] self@.adds(
                    next@,
                    "contain"@,
                    "entry ("@ + shown_key + ", "@ + shown_value + ")"@,
                    found,
                );
            assert(self.chain().adds(
                next.chain(),
                "contain"@,
                "entry ("@ + shown_key + ", "@ + shown_value + ")"@,
                found,
            ));
        }
        next
    }
}

/// The matchers on a map held by value.
impl<K, V> HashMapMatchers<K, V> for Assertion<HashMap<K, V>> {
    open spec fn chain(&self) -> ChainView {
        self@
    }

    open spec fn entries(&self) -> Map<K, V> {
        self.value@
    }

    open spec fn count(&self) -> usize {
        spec_hash_map_len(&self.value)
    }

    fn to_be_empty(self) -> (next: Self) {
        let result = self.value.is_empty();
        let sentence = AssertionSentence::new("be", "empty");
        self.push_step(sentence, result)
    }

    fn to_have_length(self, expected: usize) -> (next: Self) {
        broadcast use vstd::std_specs::hash::group_hash_axioms;

        let count: usize = self.value.len();
        length_step(self, count, expected)
    }

    fn to_contain_key<Q>(self, key: &Q) -> (next: Self) where
        K: Borrow<Q> + Hash + Eq,
        Q: Hash + Eq + Debug + ?Sized,
     {
        let found = self.value.contains_key(key);
        let next = key_step(self, key, found);
        proof {
            let shown = choose|shown: Seq<char>| #[trigger]
                self@.adds(next@, "contain"@, "key "@ + shown, found);
            assert(self.chain().adds(next.chain(), "contain"@, "key "@ + shown, found));
        }
        next
    }

    fn to_contain_entry(self, key: &K, value: &V) -> (next: Self) where
        K: Hash + Eq + Debug,
        V: PartialEq + Debug,
     {
        let found = contains_entry(&self.value, key, value);
        let next = entry_step(self, key, value, found);
        proof {
            let (shown_key, shown_value) = choose|shown_key: Seq<char>, shown_value: Seq<char>|
                #[trigger] self@.adds(
                    next@,
                    "contain"@,
                    "entry ("@ + shown_key + ", "@ + shown_value + ")"@,
                    found,
                );
            assert(self.chain().adds(
                next.chain(),
                "contain"@,
                "entry ("@ + shown_key + ", "@ + shown_value + ")"@,
                found,
            ));
        }
        next
    }
}

} // verus!
