use rest::fixtures::{
    is_in_fixture_test, register_after_all, register_after_all_handler, register_before_all,
    register_setup, register_teardown, run_after_all_fixtures, run_before_all_if_needed,
    run_test_with_fixtures, ExecutedScopes, FailureSource, FixtureContext, FixtureFunc,
    FixtureRegistry, FixtureStep, FixtureTable,
};
use std::cell::{Cell, RefCell};
use std::rc::Rc;

type Callback = Box<dyn Fn() -> Result<(), String>>;

/// The callbacks of a test program and the library state that decides their order.
struct Harness {
    registry: FixtureRegistry,
    executed: ExecutedScopes,
    context: FixtureContext,
    callbacks: Vec<Callback>,
}

impl Harness {
    fn new() -> Self {
        Harness {
            registry: FixtureRegistry::new(),
            executed: ExecutedScopes::new(),
            context: FixtureContext { in_fixture_test: false },
            callbacks: Vec::new(),
        }
    }

    fn keep(&mut self, callback: impl Fn() -> Result<(), String> + 'static) -> FixtureFunc {
        self.callbacks.push(Box::new(callback));
        FixtureFunc { id: (self.callbacks.len() - 1) as u64 }
    }

    fn setup(&mut self, scope: &str, callback: impl Fn() -> Result<(), String> + 'static) {
        let func = self.keep(callback);
        register_setup(&mut self.registry, scope, func);
    }

    fn teardown(&mut self, scope: &str, callback: impl Fn() -> Result<(), String> + 'static) {
        let func = self.keep(callback);
        register_teardown(&mut self.registry, scope, func);
    }

    fn before_all(&mut self, scope: &str, callback: impl Fn() -> Result<(), String> + 'static) {
        let func = self.keep(callback);
        register_before_all(&mut self.registry, scope, func);
    }

    fn after_all(&mut self, scope: &str, callback: impl Fn() -> Result<(), String> + 'static) {
        let func = self.keep(callback);
        register_after_all(&mut self.registry, scope, func);
    }

    /// Runs one test of `scope`: performs each step that the run hands out and
    /// reports how it went. Returns the source of the failure that is raised.
    fn run(
        &mut self,
        scope: &str,
        body: impl FnOnce(&FixtureContext) -> Result<(), String>,
    ) -> Option<FailureSource> {
        let mut run =
            run_test_with_fixtures(&self.registry, &mut self.executed, &mut self.context, scope);
        let mut body = Some(body);
        let mut failed = false;
        loop {
            match run.advance(&mut self.context, failed) {
                FixtureStep::Run(func) => {
                    failed = (self.callbacks[func.id as usize])().is_err();
                }
                FixtureStep::RunBody => {
                    let body = body.take().unwrap();
                    failed = body(&self.context).is_err();
                }
                FixtureStep::Raise(source) => {
                    register_after_all_handler(&mut self.executed, scope);
                    return Some(source);
                }
                FixtureStep::Finished => {
                    register_after_all_handler(&mut self.executed, scope);
                    return None;
                }
            }
        }
    }

    fn finish_session(&mut self) {
        for func in run_after_all_fixtures(&self.registry, &mut self.executed) {
            let _ = (self.callbacks[func.id as usize])();
        }
    }
}

fn counter() -> Rc<Cell<usize>> {
    Rc::new(Cell::new(0))
}

fn counting(counter: &Rc<Cell<usize>>, by: usize) -> impl Fn() -> Result<(), String> {
    let counter = counter.clone();
    move || {
        counter.set(counter.get() + by);
        Ok(())
    }
}

fn logging(log: &Rc<RefCell<Vec<String>>>, name: &str) -> impl Fn() -> Result<(), String> {
    let log = log.clone();
    let name = name.to_string();
    move || {
        log.borrow_mut().push(name.clone());
        Ok(())
    }
}

fn failing(log: &Rc<RefCell<Vec<String>>>, name: &str) -> impl Fn() -> Result<(), String> {
    let log = log.clone();
    let name = name.to_string();
    move || {
        log.borrow_mut().push(name.clone());
        Err(name.clone())
    }
}

/// The fixtures of the scope `main_fixtures`: two setup callbacks, one of which
/// resets the test value, and a teardown callback.
fn main_fixtures(
    setups: &Rc<Cell<usize>>,
    teardowns: &Rc<Cell<usize>>,
    value: &Rc<Cell<u32>>,
) -> Harness {
    let mut harness = Harness::new();
    harness.setup("main_fixtures", counting(setups, 1));
    harness.teardown("main_fixtures", counting(teardowns, 1));
    let reset = value.clone();
    harness.setup("main_fixtures", move || {
        reset.set(0);
        Ok(())
    });
    harness
}

#[test]
fn test_fixtures_are_called() {
    let (setups, teardowns, value) = (counter(), counter(), Rc::new(Cell::new(7)));
    let mut harness = main_fixtures(&setups, &teardowns, &value);

    let raised = harness.run("main_fixtures", |_| {
        // Setup functions should have been called
        assert!(setups.get() > 0);
        // Verify test value was reset
        assert_eq!(value.get(), 0);
        // Do something in the test
        value.set(42);
        assert_eq!(value.get(), 42);
        Ok(())
    });
    assert_eq!(raised, None);
    assert_eq!(teardowns.get(), 1);
}

#[test]
fn fixture_test_test_fixtures_run_for_each_test() {
    let (setups, teardowns, value) = (counter(), counter(), Rc::new(Cell::new(7)));
    let mut harness = main_fixtures(&setups, &teardowns, &value);

    for round in 1..=2 {
        let raised = harness.run("main_fixtures", |_| {
            // Verify that test state was reset
            assert_eq!(value.get(), 0);
            // Set a value for this test
            value.set(123);
            assert_eq!(value.get(), 123);
            Ok(())
        });
        assert_eq!(raised, None);
        assert_eq!(setups.get(), round);
        assert_eq!(teardowns.get(), round);
    }
}

#[test]
fn test_teardown_ran_from_previous_test() {
    let (setups, teardowns, value) = (counter(), counter(), Rc::new(Cell::new(7)));
    let mut harness = main_fixtures(&setups, &teardowns, &value);

    assert_eq!(harness.run("main_fixtures", |_| Ok(())), None);
    let raised = harness.run("main_fixtures", |_| {
        // Verify setup ran at least once
        let setup_count = setups.get();
        assert!(setup_count > 0);

        // The value should be reset by the setup function
        assert_eq!(value.get(), 0);

        // Teardown should have run at least once by now
        let teardown_count = teardowns.get();
        if setup_count > 1 {
            assert!(teardown_count > 0);
        }
        assert_eq!(setup_count, 2);
        assert_eq!(teardown_count, 1);
        Ok(())
    });
    assert_eq!(raised, None);
}

struct Lifecycle {
    harness: Harness,
    before_all: Rc<Cell<usize>>,
    setup: Rc<Cell<usize>>,
    teardown: Rc<Cell<usize>>,
    after_all: Rc<Cell<usize>>,
}

/// The fixtures of the scope `lifecycle_fixtures`: one callback of each kind.
fn lifecycle_fixtures() -> Lifecycle {
    let (before_all, setup, teardown, after_all) = (counter(), counter(), counter(), counter());
    let mut harness = Harness::new();
    harness.before_all("lifecycle_fixtures", counting(&before_all, 1));
    harness.setup("lifecycle_fixtures", counting(&setup, 1));
    harness.teardown("lifecycle_fixtures", counting(&teardown, 1));
    harness.after_all("lifecycle_fixtures", counting(&after_all, 1));
    Lifecycle { harness, before_all, setup, teardown, after_all }
}

#[test]
fn test_before_all_runs_once() {
    let mut fixtures = lifecycle_fixtures();
    let (before_all, after_all) = (fixtures.before_all.clone(), fixtures.after_all.clone());

    for _ in 0..3 {
        let raised = fixtures.harness.run("lifecycle_fixtures", |_| {
            // before_all should have been called exactly once
            assert_eq!(before_all.get(), 1);
            // after_all should not have been called yet (it runs at the end of the session)
            assert_eq!(after_all.get(), 0);
            Ok(())
        });
        assert_eq!(raised, None);
    }
    assert_eq!(before_all.get(), 1);
    assert_eq!(after_all.get(), 0);
}

#[test]
fn test_setup_teardown_execution() {
    let mut fixtures = lifecycle_fixtures();
    let setup = fixtures.setup.clone();

    let raised = fixtures.harness.run("lifecycle_fixtures", |_| {
        // Just verify that setup has run for this test
        assert!(setup.get() > 0);
        Ok(())
    });
    assert_eq!(raised, None);
    assert_eq!(fixtures.teardown.get(), 1);
}

#[test]
fn test_setup_teardown_is_per_test() {
    let mut fixtures = lifecycle_fixtures();
    let (setup, before_all) = (fixtures.setup.clone(), fixtures.before_all.clone());

    for round in 1..=3 {
        let raised = fixtures.harness.run("lifecycle_fixtures", |_| {
            // setup should have run for each test
            assert!(setup.get() > 0);
            assert!(setup.get() > 0 && before_all.get() > 0);
            assert_eq!(setup.get(), round);
            Ok(())
        });
        assert_eq!(raised, None);
        assert_eq!(fixtures.teardown.get(), round);
    }
}

#[test]
fn test_to_register_fixtures() {
    let (executed, setups, teardowns) = (counter(), counter(), counter());
    let mut harness = Harness::new();
    harness.after_all("after_all_test", counting(&executed, 1));
    harness.teardown("after_all_test", counting(&teardowns, 1));

    let raised = harness.run("after_all_test", |_| {
        // Record that this test ran
        setups.set(setups.get() + 1);
        // After_all count should still be 0 (it runs at the end of the session)
        assert_eq!(executed.get(), 0);
        Ok(())
    });
    assert_eq!(raised, None);
    assert_eq!(executed.get(), 0);

    harness.finish_session();
    assert_eq!(executed.get(), 1);
    assert_eq!(setups.get(), 1);
    assert_eq!(teardowns.get(), 1);
}

#[test]
fn test_after_all_setup() {
    let executed = counter();
    let mut harness = Harness::new();
    harness.after_all("after_all_test", counting(&executed, 1));

    // The counter should still be 0 while no session has ended
    assert_eq!(executed.get(), 0);

    // No test of the scope ran: the end of the session runs nothing
    harness.finish_session();
    assert_eq!(executed.get(), 0);
}

/// The fixtures of the scope `module_fixtures`: setup resets the value, teardown
/// expects the value that the test leaves.
fn module_fixtures(setups: &Rc<Cell<usize>>, value: &Rc<Cell<u32>>) -> Harness {
    let mut harness = Harness::new();
    let (count, reset) = (setups.clone(), value.clone());
    harness.setup("module_fixtures", move || {
        count.set(count.get() + 1);
        reset.set(0);
        Ok(())
    });
    let left = value.clone();
    harness.teardown("module_fixtures", move || {
        if left.get() == 42 {
            Ok(())
        } else {
            Err("be equal to 42".to_string())
        }
    });
    harness
}

#[test]
fn test_fixtures_are_applied_automatically() {
    let (setups, value) = (counter(), Rc::new(Cell::new(7)));
    let mut harness = module_fixtures(&setups, &value);

    let raised = harness.run("module_fixtures", |_| {
        // Setup function should have been called
        assert!(setups.get() > 0);
        // Test value should be reset by setup
        assert_eq!(value.get(), 0);
        // Modify the value
        value.set(42);
        assert_eq!(value.get(), 42);
        Ok(())
    });
    assert_eq!(raised, None);
}

#[test]
fn module_fixtures_test_test_fixtures_run_for_each_test() {
    let (setups, value) = (counter(), Rc::new(Cell::new(7)));
    let mut harness = module_fixtures(&setups, &value);

    for _ in 0..2 {
        let raised = harness.run("module_fixtures", |_| {
            // Value should be reset back to 0 for this test
            assert_eq!(value.get(), 0);
            assert!(setups.get() > 0);
            // Modify the value
            value.set(42);
            assert_eq!(value.get(), 42);
            Ok(())
        });
        assert_eq!(raised, None);
    }
    assert_eq!(setups.get(), 2);
}

/// The fixtures of an outer scope and of a scope nested in it, each with a setup
/// callback that sets the value and a teardown callback that expects another.
fn nested_fixtures(setups: &Rc<Cell<usize>>, value: &Rc<Cell<u32>>) -> Harness {
    let mut harness = Harness::new();
    for (scope, by, start, end) in [
        ("nested_module_test", 10, 100, 150),
        ("nested_module_test::inner_module", 1, 200, 250),
    ] {
        let (count, set) = (setups.clone(), value.clone());
        harness.setup(scope, move || {
            count.set(count.get() + by);
            set.set(start);
            Ok(())
        });
        let left = value.clone();
        harness.teardown(scope, move || {
            if left.get() == end {
                Ok(())
            } else {
                Err("teardown found another value".to_string())
            }
        });
    }
    harness
}

#[test]
fn test_inner_fixtures_are_applied() {
    let (setups, value) = (counter(), Rc::new(Cell::new(7)));
    let mut harness = nested_fixtures(&setups, &value);

    let raised = harness.run("nested_module_test::inner_module", |_| {
        // Test should have the value from the inner setup, not outer setup
        assert_eq!(value.get(), 200);
        // Modify the value
        value.set(250);
        assert_eq!(value.get(), 250);
        Ok(())
    });
    assert_eq!(raised, None);
    assert_eq!(setups.get(), 1);
}

#[test]
fn test_outer_fixtures_explicit() {
    let (setups, value) = (counter(), Rc::new(Cell::new(7)));
    let mut harness = nested_fixtures(&setups, &value);

    let raised = harness.run("nested_module_test", |_| {
        // This should use the outer setup, which sets to 100
        assert_eq!(value.get(), 100);
        // Modify the value
        value.set(150);
        assert_eq!(value.get(), 150);
        Ok(())
    });
    assert_eq!(raised, None);
    assert_eq!(setups.get(), 10);
}

#[test]
fn setup_runs_in_registration_order_before_the_body_and_teardown_after_it() {
    let log = Rc::new(RefCell::new(Vec::new()));
    let mut harness = Harness::new();
    harness.setup("m", logging(&log, "f"));
    harness.teardown("m", logging(&log, "t"));
    harness.setup("m", logging(&log, "g"));
    harness.setup("other", logging(&log, "elsewhere"));
    harness.teardown("m", logging(&log, "u"));

    let raised = harness.run("m", |_| {
        log.borrow_mut().push("body".to_string());
        Ok(())
    });
    assert_eq!(raised, None);
    assert_eq!(*log.borrow(), vec!["f", "g", "body", "t", "u"]);
}

#[test]
fn teardown_runs_when_the_body_fails_and_the_body_failure_is_raised() {
    let log = Rc::new(RefCell::new(Vec::new()));
    let mut harness = Harness::new();
    harness.setup("m", logging(&log, "f"));
    harness.setup("m", logging(&log, "g"));
    harness.teardown("m", failing(&log, "t"));
    harness.teardown("m", logging(&log, "u"));

    let raised = harness.run("m", |_| {
        log.borrow_mut().push("body".to_string());
        Err("body failed".to_string())
    });
    // Teardown ran in full, and its own failure did not take the place of the body's
    assert_eq!(*log.borrow(), vec!["f", "g", "body", "t", "u"]);
    assert_eq!(raised, Some(FailureSource::Body));
}

#[test]
fn teardown_failure_is_raised_when_the_body_passed() {
    let log = Rc::new(RefCell::new(Vec::new()));
    let mut harness = Harness::new();
    harness.teardown("m", failing(&log, "t"));
    harness.teardown("m", failing(&log, "u"));

    let raised = harness.run("m", |_| Ok(()));
    assert_eq!(*log.borrow(), vec!["t", "u"]);
    // The first of the failures is the one raised
    assert_eq!(raised, Some(FailureSource::Callback(FixtureFunc { id: 0 })));
}

#[test]
fn setup_failure_ends_the_test_before_its_body() {
    let log = Rc::new(RefCell::new(Vec::new()));
    let mut harness = Harness::new();
    harness.setup("m", failing(&log, "f"));
    harness.setup("m", logging(&log, "g"));
    harness.teardown("m", logging(&log, "t"));

    let raised = harness.run("m", |_| {
        log.borrow_mut().push("body".to_string());
        Ok(())
    });
    assert_eq!(*log.borrow(), vec!["f"]);
    assert_eq!(raised, Some(FailureSource::Callback(FixtureFunc { id: 0 })));
    assert!(!is_in_fixture_test(&harness.context));
}

#[test]
fn before_all_runs_once_across_many_tests_and_before_setup() {
    let log = Rc::new(RefCell::new(Vec::new()));
    let mut harness = Harness::new();
    harness.setup("m", logging(&log, "setup"));
    harness.before_all("m", logging(&log, "before_all"));
    harness.before_all("n", logging(&log, "before_all_n"));

    for _ in 0..4 {
        assert_eq!(harness.run("m", |_| Ok(())), None);
    }
    assert_eq!(harness.run("n", |_| Ok(())), None);
    assert_eq!(harness.run("m", |_| Ok(())), None);
    assert_eq!(
        *log.borrow(),
        vec!["before_all", "setup", "setup", "setup", "setup", "before_all_n", "setup"]
    );
}

#[test]
fn after_all_runs_once_per_executed_scope_at_the_end_of_the_session() {
    let log = Rc::new(RefCell::new(Vec::new()));
    let mut harness = Harness::new();
    harness.after_all("m", logging(&log, "after_m_1"));
    harness.after_all("never_run", logging(&log, "after_never"));
    harness.after_all("n", logging(&log, "after_n"));
    harness.after_all("m", logging(&log, "after_m_2"));

    assert_eq!(harness.run("n", |_| Ok(())), None);
    assert_eq!(harness.run("m", |_| Err("failed".to_string())), Some(FailureSource::Body));
    assert_eq!(harness.run("n", |_| Ok(())), None);
    assert!(log.borrow().is_empty());

    harness.finish_session();
    assert_eq!(*log.borrow(), vec!["after_n", "after_m_1", "after_m_2"]);

    // A second call at the end of the session runs nothing again
    harness.finish_session();
    assert_eq!(log.borrow().len(), 3);

    // A scope that begins later has its turn at the next end
    assert_eq!(harness.run("never_run", |_| Ok(())), None);
    assert_eq!(harness.run("m", |_| Ok(())), None);
    harness.finish_session();
    assert_eq!(*log.borrow(), vec!["after_n", "after_m_1", "after_m_2", "after_never"]);
}

#[test]
fn end_of_session_without_tests_runs_nothing() {
    let log = Rc::new(RefCell::new(Vec::new()));
    let mut harness = Harness::new();
    harness.after_all("m", logging(&log, "after"));
    harness.finish_session();
    assert!(log.borrow().is_empty());
}

#[test]
fn thread_is_inside_a_fixture_test_until_the_run_ends() {
    let mut harness = Harness::new();
    assert!(!is_in_fixture_test(&harness.context));
    let raised = harness.run("m", |context| {
        assert!(is_in_fixture_test(context));
        Ok(())
    });
    assert_eq!(raised, None);
    assert!(!is_in_fixture_test(&harness.context));
}

#[test]
fn finished_run_stays_finished() {
    let registry = FixtureRegistry::new();
    let mut executed = ExecutedScopes::new();
    let mut context = FixtureContext { in_fixture_test: false };
    let mut run = run_test_with_fixtures(&registry, &mut executed, &mut context, "m");
    assert_eq!(run.advance(&mut context, false), FixtureStep::RunBody);
    assert_eq!(run.advance(&mut context, true), FixtureStep::Raise(FailureSource::Body));
    assert_eq!(run.advance(&mut context, false), FixtureStep::Finished);
    assert_eq!(run.advance(&mut context, true), FixtureStep::Finished);
}

#[test]
fn scope_is_claimed_once() {
    let mut registry = FixtureRegistry::new();
    register_before_all(&mut registry, "m", FixtureFunc { id: 5 });
    register_before_all(&mut registry, "m", FixtureFunc { id: 3 });
    let mut executed = ExecutedScopes::new();

    assert!(!executed.contains("m"));
    assert_eq!(
        run_before_all_if_needed(&registry, &mut executed, "m"),
        vec![FixtureFunc { id: 5 }, FixtureFunc { id: 3 }]
    );
    assert!(executed.contains("m"));
    assert_eq!(run_before_all_if_needed(&registry, &mut executed, "m"), vec![]);
    assert!(!executed.claim("m"));
    assert!(executed.claim("n"));
}

#[test]
fn table_lists_the_callbacks_of_a_scope_in_registration_order() {
    let mut table = FixtureTable::new();
    table.register("a", FixtureFunc { id: 1 });
    table.register("b", FixtureFunc { id: 2 });
    table.register("a", FixtureFunc { id: 3 });
    table.register("a", FixtureFunc { id: 1 });
    assert_eq!(
        table.callbacks("a"),
        vec![FixtureFunc { id: 1 }, FixtureFunc { id: 3 }, FixtureFunc { id: 1 }]
    );
    assert_eq!(table.callbacks("b"), vec![FixtureFunc { id: 2 }]);
    assert_eq!(table.callbacks("c"), vec![]);
}
