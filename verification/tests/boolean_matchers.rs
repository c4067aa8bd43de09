use rest::assertion::{expect, Assertion, EvaluationGuard, ThreadContext};
use rest::events::{AssertionEvent, EventEmitter};
use rest::matchers::boolean::BooleanMatchers;
use rest::reporter::Reporter;

/// The context of an evaluation inside a test, with events switched on.
fn context() -> ThreadContext {
    ThreadContext {
        is_test: true,
        is_module_test: false,
        use_enhanced_output: true,
        is_special_test: false,
    }
}

/// A reporter subscribed to a fresh emitter.
fn reporter() -> Reporter {
    let mut emitter = EventEmitter::new();
    Reporter::init(&mut emitter)
}

/// Ends the life of a chain as the end of an expression does: the chain evaluates
/// itself, its event goes to the reporter, and its failure is raised.
fn finish<T>(chain: Assertion<T>, reporter: &mut Reporter) {
    let mut guard = EvaluationGuard::new();
    if let Some(mut outcome) = chain.evaluate_at_end(&mut guard, false, &context()) {
        match outcome.event.take() {
            Some(AssertionEvent::Success(chain)) => {
                reporter.handle_success_event(chain);
            }
            Some(AssertionEvent::Failure(chain)) => {
                reporter.handle_failure_event(chain);
            }
            _ => {}
        }
        if let Some(message) = guard.conclude(outcome) {
            panic!("{}", message);
        }
    }
}

#[test]
fn test_boolean_true() {
    let mut reporter = reporter();
    // Disable deduplication for tests
    reporter.disable_deduplication();

    // This should pass
    finish(expect(true, "true").to_be_true(), &mut reporter);
    finish(expect(false, "false").not().to_be_true(), &mut reporter);
}

#[test]
#[should_panic(expected = "not be true")]
fn test_not_true_fails() {
    let mut reporter = reporter();
    // This will evaluate and panic when the Assertion is dropped
    finish(expect(true, "true").not().to_be_true(), &mut reporter);
}

#[test]
#[should_panic(expected = "be true")]
fn test_false_to_be_true_fails() {
    let mut reporter = reporter();
    // This will evaluate and panic when the Assertion is dropped
    finish(expect(false, "false").to_be_true(), &mut reporter);
}

#[test]
fn test_boolean_false() {
    let mut reporter = reporter();
    // Disable deduplication for tests
    reporter.disable_deduplication();

    // This should pass
    finish(expect(false, "false").to_be_false(), &mut reporter);
    finish(expect(true, "true").not().to_be_false(), &mut reporter);
}

#[test]
#[should_panic(expected = "not be false")]
fn test_not_false_fails() {
    let mut reporter = reporter();
    // This will evaluate and panic when the Assertion is dropped
    finish(expect(false, "false").not().to_be_false(), &mut reporter);
}

#[test]
#[should_panic(expected = "be false")]
fn test_true_to_be_false_fails() {
    let mut reporter = reporter();
    // This will evaluate and panic when the Assertion is dropped
    finish(expect(true, "true").to_be_false(), &mut reporter);
}
