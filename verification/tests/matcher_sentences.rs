use rest::assertion::{expect, Assertion};
use rest::matchers::boolean::BooleanMatchers;
use rest::matchers::collection::{CollectionExtensions, CollectionMatchers};
use rest::matchers::equality::EqualityMatchers;
use rest::matchers::hashmap::HashMapMatchers;
use rest::matchers::numeric::{Numeric, NumericMatchers};
use rest::matchers::option::OptionMatchers;
use rest::matchers::result::ResultMatchers;
use rest::matchers::string::StringMatchers;
use std::collections::HashMap;

/// The raw sentence and the outcome of the last step of a chain.
fn last<T>(chain: &Assertion<T>) -> (String, bool) {
    let step = chain.steps.last().unwrap();
    (step.sentence.format(), step.passed)
}

#[test]
fn numeric_sentences_name_the_numbers() {
    assert_eq!(last(&expect(5, "x").to_be_positive()), ("be positive".to_string(), true));
    assert_eq!(last(&expect(0, "x").to_be_positive()), ("be positive".to_string(), false));
    assert_eq!(last(&expect(5, "x").to_be_negative()), ("be negative".to_string(), false));
    assert_eq!(last(&expect(0u8, "x").to_be_zero()), ("be zero".to_string(), true));
    assert_eq!(
        last(&expect(5, "x").to_be_greater_than(-12)),
        ("be greater than -12".to_string(), true)
    );
    assert_eq!(
        last(&expect(5, "x").to_be_greater_than_or_equal(6)),
        ("be greater than or equal to 6".to_string(), false)
    );
    assert_eq!(last(&expect(5, "x").to_be_less_than(5)), ("be less than 5".to_string(), false));
    assert_eq!(
        last(&expect(5u64, "x").to_be_less_than_or_equal(5)),
        ("be less than or equal to 5".to_string(), true)
    );
    assert_eq!(
        last(&expect(10, "x").to_be_in_range(-3..10)),
        ("be in range -3..10".to_string(), false)
    );
    assert_eq!(
        last(&expect(-3, "x").to_be_in_range(-3..10)),
        ("be in range -3..10".to_string(), true)
    );
    assert_eq!(last(&expect(-7, "x").to_be_odd()), ("be odd".to_string(), true));
    assert_eq!(last(&expect(-7, "x").to_be_even()), ("be even".to_string(), false));
    assert_eq!(last(&expect(-8i8, "x").to_be_even()), ("be even".to_string(), true));
    assert_eq!(
        last(&expect(i128::MIN, "x").to_be_less_than(i128::MAX)),
        ("be less than 170141183460469231731687303715884105727".to_string(), true)
    );
    assert_eq!(
        last(&expect(u128::MAX, "x").not().to_be_greater_than(0)),
        ("not be greater than 0".to_string(), false)
    );
}

#[test]
fn numbers_of_every_integer_type() {
    assert!(7i8.is_odd() && 7i16.is_odd() && 7i32.is_odd() && 7i64.is_odd() && 7i128.is_odd());
    assert!(7isize.is_odd() && 7u8.is_odd() && 7u16.is_odd() && 7u32.is_odd() && 7u64.is_odd());
    assert!(7u128.is_odd() && 7usize.is_odd());
    assert!((-2i16).is_even() && (-2i16).is_negative() && !(-2i16).is_positive());
    assert!(0usize.is_zero() && !0usize.is_negative() && !0usize.is_positive());
    assert!(3u16.is_below(&4) && !4u16.is_below(&4));
    assert_eq!((-128i8).to_text(), "-128");
    assert_eq!(255u8.to_text(), "255");
    assert_eq!(isize::MIN.to_text(), isize::MIN.to_string());
    assert_eq!(u64::MAX.to_text(), "18446744073709551615");
}

#[test]
fn matchers_keep_the_history_of_the_chain() {
    let chain = expect(6, "number").to_be_positive().and().not().to_be_odd().or().to_be_zero();
    assert_eq!(chain.value, 6);
    assert_eq!(chain.steps.len(), 3);
    assert_eq!(chain.steps[0].sentence.format(), "be positive");
    assert_eq!(chain.steps[1].sentence.format(), "not be odd");
    assert_eq!(chain.steps[2].sentence.format(), "be zero");
    assert_eq!(chain.steps[1].sentence.subject, "number");
    assert!(chain.steps[1].passed);
    assert!(!chain.steps[2].passed);
    assert!(chain.is_final);
    assert!(chain.calculate_chain_result());
}

#[test]
fn string_sentences_quote_the_text() {
    assert_eq!(last(&expect("hello", "s").to_be_empty()), ("be empty".to_string(), false));
    assert_eq!(last(&expect("héllo", "s").to_have_length(6)), ("have length 6".to_string(), true));
    assert_eq!(
        last(&expect("hello world", "s").to_contain("goodbye")),
        ("contain \"goodbye\"".to_string(), false)
    );
    assert_eq!(
        last(&expect(String::from("hello world"), "s").to_contain_substring("o w")),
        ("contain \"o w\"".to_string(), true)
    );
    assert_eq!(
        last(&expect("hello world", "s").to_start_with("hello")),
        ("start with \"hello\"".to_string(), true)
    );
    assert_eq!(
        last(&expect("hello world", "s").to_end_with("hello")),
        ("end with \"hello\"".to_string(), false)
    );
    assert_eq!(
        last(&expect("hello123", "s").to_match("^hello\\d+$")),
        ("match pattern /^hello\\d+$/".to_string(), true)
    );
    assert_eq!(
        last(&expect("hello", "s").to_match("\\d")),
        ("match pattern /\\d/".to_string(), false)
    );
}

#[test]
fn invalid_pattern_is_reported_and_the_chain_is_not_extended() {
    let error = match expect("hello", "s").try_to_match("[invalid") {
        Ok(_) => panic!("the pattern was accepted"),
        Err(error) => error,
    };
    assert_eq!(error.pattern, "[invalid");
    assert!(!error.reason.is_empty());
    assert_eq!(error.message(), format!("Invalid regex pattern '[invalid': {}", error.reason));

    let chain = expect(String::from("a1"), "s").try_to_match("[a-z]\\d").unwrap();
    assert_eq!(last(&chain), ("match pattern /[a-z]\\d/".to_string(), true));
}

#[test]
fn collection_sentences_show_the_expected_values() {
    let items = vec![1, 2, 3];
    assert_eq!(last(&expect(&items, "v").to_be_empty()), ("be empty".to_string(), false));
    assert_eq!(last(&expect(&items, "v").to_have_length(3)), ("have length 3".to_string(), true));
    assert_eq!(last(&expect(&items, "v").to_contain(4)), ("contain 4".to_string(), false));
    assert_eq!(
        last(&expect(items.as_slice(), "v").to_contain_all_of(&[1, 6, 7])),
        ("contain all of [1, 6, 7]".to_string(), false)
    );
    assert_eq!(
        last(&expect(items.clone(), "v").to_contain_all_of(&[3, 1, 1])),
        ("contain all of [3, 1, 1]".to_string(), true)
    );
    assert_eq!(
        last(&expect(&items, "v").to_equal_collection(&[1, 2])),
        ("equal collection [1, 2] (different lengths)".to_string(), false)
    );
    assert_eq!(
        last(&expect(&items, "v").to_equal_collection(&[1, 2, 4])),
        ("equal collection [1, 2, 4]".to_string(), false)
    );
    assert_eq!(
        last(&expect(&[1, 2, 3], "v").to_equal_collection(&[1, 2, 3])),
        ("equal collection [1, 2, 3]".to_string(), true)
    );
    let none: Vec<i32> = vec![];
    assert_eq!(last(&expect(&none, "v").to_contain_all_of(&none)).1, true);
    assert_eq!(last(&expect(&none, "v").to_equal_collection(&none)).1, true);
}

#[test]
fn first_and_last_of_a_collection() {
    let items = vec![4, 5, 6];
    assert_eq!(CollectionExtensions::first(&items), Some(&4));
    assert_eq!(CollectionExtensions::last(&items), Some(&6));
    let slice = items.as_slice();
    assert_eq!(CollectionExtensions::first(&slice), Some(&4));
    assert_eq!(CollectionExtensions::last(&&slice[..1]), Some(&4));
    let none: Vec<i32> = vec![];
    assert_eq!(CollectionExtensions::first(&none), None);
    assert_eq!(CollectionExtensions::last(&none), None);
}

#[test]
fn map_sentences_show_keys_and_values() {
    let map: HashMap<String, i32> = [("one".to_string(), 1)].into_iter().collect();
    assert_eq!(last(&expect(&map, "m").to_be_empty()), ("be empty".to_string(), false));
    assert_eq!(last(&expect(&map, "m").to_have_length(1)), ("have length 1".to_string(), true));
    assert_eq!(
        last(&expect(&map, "m").to_contain_key("one")),
        ("contain key \"one\"".to_string(), true)
    );
    assert_eq!(
        last(&expect(&map, "m").to_contain_key("two")),
        ("contain key \"two\"".to_string(), false)
    );
    assert_eq!(
        last(&expect(&map, "m").to_contain_entry(&"one".to_string(), &2)),
        ("contain entry (\"one\", 2)".to_string(), false)
    );
    assert_eq!(
        last(&expect(map.clone(), "m").to_contain_entry(&"one".to_string(), &1)),
        ("contain entry (\"one\", 1)".to_string(), true)
    );
}

#[test]
fn option_result_equality_and_boolean_sentences() {
    assert_eq!(last(&expect(Some(1), "o").to_be_some()), ("be some".to_string(), true));
    assert_eq!(last(&expect(Some(1), "o").to_be_none()), ("be none".to_string(), false));
    assert_eq!(last(&expect(&Some(1), "o").to_contain(&2)), ("contain 2".to_string(), false));
    let none: Option<i32> = None;
    assert_eq!(last(&expect(none, "o").to_contain(&2)), ("contain 2".to_string(), false));

    let ok: Result<i32, String> = Ok(1);
    let err: Result<i32, String> = Err("no".to_string());
    assert_eq!(last(&expect(&ok, "r").to_be_ok()), ("be ok".to_string(), true));
    assert_eq!(last(&expect(&ok, "r").to_be_err()), ("be err".to_string(), false));
    assert_eq!(
        last(&expect(ok.clone(), "r").to_contain_ok(&1)),
        ("contain ok value 1".to_string(), true)
    );
    assert_eq!(
        last(&expect(ok.clone(), "r").to_contain_err(&"no".to_string())),
        ("contain err value \"no\"".to_string(), false)
    );
    assert_eq!(
        last(&expect(&err, "r").to_contain_err(&"no".to_string())),
        ("contain err value \"no\"".to_string(), true)
    );

    assert_eq!(last(&expect(42, "e").to_equal(43)), ("be equal to 43".to_string(), false));
    assert_eq!(
        last(&expect(&"a", "e").to_equal_value("a")),
        ("be equal to \"a\"".to_string(), true)
    );

    assert_eq!(last(&expect(true, "b").to_be_true()), ("be true".to_string(), true));
    assert_eq!(last(&expect(&true, "b").to_be_false()), ("be false".to_string(), false));
}
