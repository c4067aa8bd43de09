use rest::assertion::{expect, Assertion, EvaluationGuard, ThreadContext};
use rest::events::{AssertionEvent, EventEmitter};
use rest::matchers::option::OptionMatchers;
use rest::reporter::Reporter;

/// The context of an evaluation inside a test, with events switched on.
fn context() -> ThreadContext {
    ThreadContext {
        is_test: true,
        is_module_test: false,
        use_enhanced_output: true,
        is_special_test: false,
    }
}

/// A reporter subscribed to a fresh emitter.
fn reporter() -> Reporter {
    let mut emitter = EventEmitter::new();
    Reporter::init(&mut emitter)
}

/// Ends the life of a chain as the end of an expression does: the chain evaluates
/// itself, its event goes to the reporter, and its failure is raised.
fn finish<T>(chain: Assertion<T>, reporter: &mut Reporter) {
    let mut guard = EvaluationGuard::new();
    if let Some(mut outcome) = chain.evaluate_at_end(&mut guard, false, &context()) {
        match outcome.event.take() {
            Some(AssertionEvent::Success(chain)) => {
                reporter.handle_success_event(chain);
            }
            Some(AssertionEvent::Failure(chain)) => {
                reporter.handle_failure_event(chain);
            }
            _ => {}
        }
        if let Some(message) = guard.conclude(outcome) {
            panic!("{}", message);
        }
    }
}

#[test]
fn test_option_to_be_some() {
    let mut reporter = reporter();
    // Disable deduplication for tests
    reporter.disable_deduplication();

    let some_value: Option<i32> = Some(42);
    let none_value: Option<i32> = None;

    // These should pass
    finish(expect(some_value, "some_value").to_be_some(), &mut reporter);
    finish(expect(none_value, "none_value").to_be_none(), &mut reporter);
    finish(expect(none_value, "none_value").not().to_be_some(), &mut reporter);
    finish(expect(some_value, "some_value").not().to_be_none(), &mut reporter);
}

#[test]
#[should_panic(expected = "be some")]
fn test_none_to_be_some_fails() {
    let mut reporter = reporter();
    let value: Option<i32> = None;
    finish(expect(value, "value").to_be_some(), &mut reporter);
}

#[test]
#[should_panic(expected = "be none")]
fn test_some_to_be_none_fails() {
    let mut reporter = reporter();
    let value: Option<i32> = Some(42);
    finish(expect(value, "value").to_be_none(), &mut reporter);
}

#[test]
fn test_option_to_contain() {
    let mut reporter = reporter();
    // Disable deduplication for tests
    reporter.disable_deduplication();

    let value: Option<i32> = Some(42);

    // These should pass
    finish(expect(value, "value").to_contain(&42), &mut reporter);
    finish(expect(value, "value").not().to_contain(&43), &mut reporter);

    let none_value: Option<i32> = None;
    finish(expect(none_value, "none_value").not().to_contain(&42), &mut reporter);
}

#[test]
#[should_panic(expected = "contain")]
fn test_wrong_value_not_fails() {
    let mut reporter = reporter();
    let value: Option<i32> = Some(42);
    finish(expect(value, "value").not().to_contain(&42), &mut reporter);
}

#[test]
#[should_panic(expected = "contain 43")]
fn option_test_missing_value_fails() {
    let mut reporter = reporter();
    let value: Option<i32> = Some(42);
    finish(expect(value, "value").to_contain(&43), &mut reporter);
}

#[test]
#[should_panic(expected = "contain 42")]
fn test_none_value_fails() {
    let mut reporter = reporter();
    let value: Option<i32> = None;
    finish(expect(value, "value").to_contain(&42), &mut reporter);
}
