use rest::assertion::{Assertion, AssertionStep, LogicalOp};
use rest::console::{compose_summary, Config, ConsoleRenderer};
use rest::reporter::TestSessionResult;
use rest::sentence::AssertionSentence;

fn plain(unicode: bool, details: bool) -> ConsoleRenderer {
    ConsoleRenderer::new(Config {
        use_colors: false,
        use_unicode_symbols: unicode,
        show_success_details: details,
        enhanced_output: true,
    })
}

fn chain(label: &'static str, steps: &[(&str, &str, bool, Option<LogicalOp>)]) -> Assertion<()> {
    let mut assertion = Assertion::new((), label);
    for (verb, object, passed, logical_op) in steps {
        assertion.steps.push(AssertionStep {
            sentence: AssertionSentence::new(verb, object),
            passed: *passed,
            logical_op: *logical_op,
        });
    }
    assertion
}

#[test]
fn default_configuration() {
    let config = Config::new();
    assert!(config.use_colors);
    assert!(config.use_unicode_symbols);
    assert!(config.show_success_details);
    assert!(!config.enhanced_output);
}

#[test]
fn message_of_a_chain() {
    let renderer = plain(true, true);
    assert_eq!(renderer.build_assertion_message(&chain("value", &[])), "No assertions made");
    assert_eq!(
        renderer.build_assertion_message(&chain("&value", &[("be", "positive", true, None)])),
        "value is positive"
    );
    let long = chain(
        "values",
        &[
            ("have", "length 3", true, Some(LogicalOp::And)),
            ("contain", "4", false, Some(LogicalOp::Or)),
            ("be", "empty", false, None),
            ("match", "all", true, None),
        ],
    );
    assert_eq!(
        renderer.build_assertion_message(&long),
        "values have length 3 AND contain 4 OR are empty [MISSING OP] match all"
    );
    assert_eq!(
        renderer.message_for(&long, false),
        "values has length 3 AND contains 4 OR is empty [MISSING OP] matches all"
    );
}

#[test]
fn details_of_a_chain() {
    let renderer = plain(true, true);
    let steps = chain(
        "value",
        &[("be", "positive", true, Some(LogicalOp::And)), ("be", "even", false, None)],
    );
    assert_eq!(renderer.build_failure_details(&steps), "  ✓ is positive\n  ✗ is even\n");
    assert_eq!(renderer.details_for(&steps, true), "  ✓ are positive\n  ✗ are even\n");
    assert_eq!(renderer.build_failure_details(&chain("value", &[])), "");
}

#[test]
fn success_line() {
    let passed = chain("value", &[("be", "positive", true, None)]);
    assert_eq!(plain(true, true).render_success(&passed), "✓ value is positive");
    assert_eq!(plain(false, true).render_success(&passed), "+ value is positive");
    assert_eq!(plain(true, false).render_success(&passed), "");
    let painted = ConsoleRenderer::new(Config {
        use_colors: true,
        use_unicode_symbols: true,
        show_success_details: false,
        enhanced_output: true,
    });
    assert_eq!(painted.render_success(&passed), "");
}

#[test]
fn failure_header_and_details() {
    let failed = chain("value", &[("be", "negative", false, None)]);
    let (header, details) = plain(true, true).render_failure(&failed);
    assert_eq!(header, "✗ value is negative");
    assert_eq!(details, "  ✗ is negative\n");
    let (header, _) = plain(false, true).render_failure(&failed);
    assert_eq!(header, "- value is negative");

    // With colours the message is written as it is or painted up to the reset
    // sequence; the mark and the details are as they are without
    let painted = ConsoleRenderer::new(Config::new());
    let (header, details) = painted.render_failure(&failed);
    assert!(header.starts_with("✗ "));
    assert!(header == "✗ value is negative" || header.ends_with("\x1B[0m"));
    assert!(header.contains("value is negative"));
    assert_eq!(details, "  ✗ is negative\n");
}

#[test]
fn success_line_with_colours() {
    let passed = chain("value", &[("be", "positive", true, None)]);
    let line = ConsoleRenderer::new(Config::new()).render_success(&passed);
    assert!(line == "✓ value is positive" || line.ends_with("\x1B[0m"));
    assert!(line.contains("value is positive"));
}

#[test]
fn summary_with_colours_lists_the_failures() {
    let renderer = ConsoleRenderer::new(Config::new());
    let session = TestSessionResult {
        passed_count: 0,
        failed_count: 1,
        failures: vec![chain("value", &[("be", "negative", false, None)])],
    };
    let summary = renderer.render_session_summary(&session);
    assert!(summary.starts_with("\nTest Results:\n  0 passed / "));
    assert!(summary.contains("1 failed"));
    assert!(summary.contains("\n\nFailure Details:\n  1. ✗ "));
    assert!(summary.ends_with("\n       ✗ is negative\n"));
}

#[test]
fn summary_of_a_session() {
    let renderer = plain(false, true);
    let clean = TestSessionResult { passed_count: 3, failed_count: 0, failures: vec![] };
    assert_eq!(renderer.render_session_summary(&clean), "\nTest Results:\n  3 passed / 0 failed\n");

    let session = TestSessionResult {
        passed_count: 12,
        failed_count: 2,
        failures: vec![
            chain("value", &[("be", "negative", false, None)]),
            chain(
                "items",
                &[("be", "empty", false, Some(LogicalOp::Or)), ("contain", "4", false, None)],
            ),
        ],
    };
    assert_eq!(
        renderer.render_session_summary(&session),
        "\nTest Results:\n  12 passed / 2 failed\n\nFailure Details:\n  1. - value is negative\n       ✗ is negative\n  2. - items are empty OR contain 4\n       ✗ are empty\n       ✗ contain 4\n"
    );

    // Failures are listed only where a failure was counted
    let uncounted = TestSessionResult {
        passed_count: 0,
        failed_count: 0,
        failures: vec![chain("value", &[("be", "negative", false, None)])],
    };
    assert_eq!(
        renderer.render_session_summary(&uncounted),
        "\nTest Results:\n  0 passed / 0 failed\n"
    );
}

#[test]
fn summary_with_colours_keeps_its_frame() {
    let renderer = ConsoleRenderer::new(Config::new());
    let clean = TestSessionResult::default();
    // Counts of zero are written without paint
    assert_eq!(renderer.render_session_summary(&clean), "\nTest Results:\n  0 passed / 0 failed\n");
}

#[test]
fn summary_from_its_pieces() {
    let entries = vec![
        ("first".to_string(), "a\r\nb\n".to_string()),
        ("second".to_string(), "".to_string()),
    ];
    assert_eq!(
        compose_summary("P", "F", true, &entries),
        "\nTest Results:\n  P / F\n\nFailure Details:\n  1. first\n     a\n     b\n  2. second\n"
    );
    assert_eq!(compose_summary("P", "F", false, &entries), "\nTest Results:\n  P / F\n");
}
