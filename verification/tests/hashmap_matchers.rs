use rest::assertion::{expect, Assertion, EvaluationGuard, ThreadContext};
use rest::events::{AssertionEvent, EventEmitter};
use rest::matchers::hashmap::HashMapMatchers;
use rest::reporter::Reporter;
use std::collections::HashMap;

/// The context of an evaluation inside a test, with events switched on.
fn context() -> ThreadContext {
    ThreadContext {
        is_test: true,
        is_module_test: false,
        use_enhanced_output: true,
        is_special_test: false,
    }
}

/// A reporter subscribed to a fresh emitter.
fn reporter() -> Reporter {
    let mut emitter = EventEmitter::new();
    Reporter::init(&mut emitter)
}

/// Ends the life of a chain as the end of an expression does: the chain evaluates
/// itself, its event goes to the reporter, and its failure is raised.
fn finish<T>(chain: Assertion<T>, reporter: &mut Reporter) {
    let mut guard = EvaluationGuard::new();
    if let Some(mut outcome) = chain.evaluate_at_end(&mut guard, false, &context()) {
        match outcome.event.take() {
            Some(AssertionEvent::Success(chain)) => {
                reporter.handle_success_event(chain);
            }
            Some(AssertionEvent::Failure(chain)) => {
                reporter.handle_failure_event(chain);
            }
            _ => {}
        }
        if let Some(message) = guard.conclude(outcome) {
            panic!("{}", message);
        }
    }
}

#[test]
fn test_hashmap_to_be_empty() {
    let mut reporter = reporter();
    // Disable deduplication for tests
    reporter.disable_deduplication();

    let empty: HashMap<i32, i32> = HashMap::new();
    let not_empty: HashMap<i32, i32> = [(1, 2)].iter().cloned().collect();

    // These should pass
    finish(expect(&empty, "&empty").to_be_empty(), &mut reporter);
    finish(expect(&not_empty, "&not_empty").not().to_be_empty(), &mut reporter);
}

#[test]
#[should_panic(expected = "be empty")]
fn hashmap_test_non_empty_to_be_empty_fails() {
    let mut reporter = reporter();
    let map: HashMap<i32, i32> = [(1, 2)].iter().cloned().collect();
    finish(expect(&map, "&map").to_be_empty(), &mut reporter);
}

#[test]
#[should_panic(expected = "not be empty")]
fn hashmap_test_empty_not_to_be_empty_fails() {
    let mut reporter = reporter();
    let map: HashMap<i32, i32> = HashMap::new();
    finish(expect(&map, "&map").not().to_be_empty(), &mut reporter);
}

#[test]
fn test_hashmap_to_have_length() {
    let mut reporter = reporter();
    // Disable deduplication for tests
    reporter.disable_deduplication();

    let map: HashMap<i32, i32> = [(1, 2), (3, 4)].iter().cloned().collect();

    // These should pass
    finish(expect(&map, "&map").to_have_length(2), &mut reporter);
    finish(expect(&map, "&map").not().to_have_length(3), &mut reporter);
}

#[test]
#[should_panic(expected = "have length")]
fn hashmap_test_wrong_length_fails() {
    let mut reporter = reporter();
    let map: HashMap<i32, i32> = [(1, 2)].iter().cloned().collect();
    finish(expect(&map, "&map").to_have_length(2), &mut reporter);
}

#[test]
#[should_panic(expected = "not have length")]
fn hashmap_test_right_length_not_fails() {
    let mut reporter = reporter();
    let map: HashMap<i32, i32> = [(1, 2)].iter().cloned().collect();
    finish(expect(&map, "&map").not().to_have_length(1), &mut reporter);
}

#[test]
fn test_hashmap_to_contain_key() {
    let mut reporter = reporter();
    // Disable deduplication for tests
    reporter.disable_deduplication();

    let map: HashMap<i32, i32> = [(1, 2), (3, 4)].iter().cloned().collect();

    // These should pass
    finish(expect(&map, "&map").to_contain_key(&1), &mut reporter);
    finish(expect(&map, "&map").not().to_contain_key(&2), &mut reporter);
}

#[test]
#[should_panic(expected = "not contain key")]
fn test_present_key_not_fails() {
    let mut reporter = reporter();
    let map: HashMap<i32, i32> = [(1, 2)].iter().cloned().collect();
    finish(expect(&map, "&map").not().to_contain_key(&1), &mut reporter);
}

#[test]
#[should_panic(expected = "contain key")]
fn test_missing_key_fails() {
    let mut reporter = reporter();
    let map: HashMap<i32, i32> = [(1, 2)].iter().cloned().collect();
    finish(expect(&map, "&map").to_contain_key(&2), &mut reporter);
}

#[test]
fn test_hashmap_to_contain_entry() {
    let mut reporter = reporter();
    // Disable deduplication for tests
    reporter.disable_deduplication();

    let map: HashMap<i32, i32> = [(1, 2), (3, 4)].iter().cloned().collect();

    // These should pass
    finish(expect(&map, "&map").to_contain_entry(&1, &2), &mut reporter);
    finish(expect(&map, "&map").not().to_contain_entry(&1, &3), &mut reporter);
    finish(expect(&map, "&map").not().to_contain_entry(&2, &3), &mut reporter);
}

#[test]
#[should_panic(expected = "not contain entry")]
fn test_right_entry_not_fails() {
    let mut reporter = reporter();
    let map: HashMap<i32, i32> = [(1, 2)].iter().cloned().collect();
    finish(expect(&map, "&map").not().to_contain_entry(&1, &2), &mut reporter);
}

#[test]
#[should_panic(expected = "contain entry")]
fn test_missing_key_entry_fails() {
    let mut reporter = reporter();
    let map: HashMap<i32, i32> = [(1, 2)].iter().cloned().collect();
    finish(expect(&map, "&map").to_contain_entry(&2, &3), &mut reporter);
}

#[test]
#[should_panic(expected = "contain entry")]
fn test_wrong_value_fails() {
    let mut reporter = reporter();
    let map: HashMap<i32, i32> = [(1, 2)].iter().cloned().collect();
    finish(expect(&map, "&map").to_contain_entry(&1, &3), &mut reporter);
}
