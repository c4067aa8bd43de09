//! Test fixtures: callbacks registered per scope, and the order in which they run
//! around a test body.
//!
//! The callbacks themselves stay with the caller. The registry holds the handles
//! that name them and decides which are due; the caller runs what it is handed and
//! reports how it went.

use crate::text::{same_text, texts};
use vstd::prelude::*;
use vstd::string::*;

verus! {

/// The handle of a callback without arguments. Equal handles name the same callback.
#[derive(Debug, Clone, Copy, PartialEq, Eq, Structural)]
pub struct FixtureFunc {
    pub id: u64,
}

/// One registration: a callback and the scope that it was registered for.
#[derive(Debug)]
pub struct Registration {
    scope: String,
    func: FixtureFunc,
}

/// The mathematical content of a [`Registration`].
pub struct RegistrationView {
    pub scope: Seq<char>,
    pub func: FixtureFunc,
}

impl View for Registration {
    type V = RegistrationView;

    closed spec fn view(&self) -> RegistrationView {
        RegistrationView { scope: self.scope@, func: self.func }
    }
}

/// The contents of a list of registrations.
pub open spec fn registration_views(entries: Seq<Registration>) -> Seq<RegistrationView> {
    Seq::new(entries.len(), |i: int| entries[i]@)
}

/// The callbacks registered for `scope`, in registration order.
pub open spec fn callbacks_of(entries: Seq<RegistrationView>, scope: Seq<char>) -> Seq<
    FixtureFunc,
>
    decreases entries.len(),
{
    if entries.len() == 0 {
        Seq::empty()
    } else if entries.last().scope == scope {
        callbacks_of(entries.drop_last(), scope).push(entries.last().func)
    } else {
        callbacks_of(entries.drop_last(), scope)
    }
}

/// The callbacks of one kind: an append-only list of registrations, from which
/// each scope's callbacks are read in registration order.
#[derive(Debug)]
pub struct FixtureTable {
    entries: Vec<Registration>,
}

impl View for FixtureTable {
    type V = Seq<RegistrationView>;

    closed spec fn view(&self) -> Seq<RegistrationView> {
        registration_views(self.entries@)
    }
}

impl FixtureTable {
    /// Creates a table without registrations.
    pub fn new() -> (table: Self)
        ensures
            table@ == Seq::<RegistrationView>::empty(),
    {
        let table = FixtureTable { entries: Vec::new() };
        assert(registration_views(table.entries@) =~= Seq::<RegistrationView>::empty());
        table
    }

    /// Registers `func` for `scope`, behind everything registered before.
    pub fn register(&mut self, scope: &str, func: FixtureFunc)
        ensures
            final(self)@ == old(self)@.push(RegistrationView { scope: scope@, func }),
    {
        let ghost before = registration_views(self.entries@);
        self.entries.push(Registration { scope: String::from_str(scope), func });
        assert(registration_views(self.entries@) =~= before.push(
            RegistrationView { scope: scope@, func },
        ));
    }

    /// Lists the callbacks registered for `scope`, in registration order.
    pub fn callbacks(&self, scope: &str) -> (funcs: Vec<FixtureFunc>)
        ensures
            funcs@ == callbacks_of(self@, scope@),
    {
        let mut funcs: Vec<FixtureFunc> = Vec::new();
        let mut i: usize = 0;
        assert(self@.take(0) =~= Seq::<RegistrationView>::empty());
        while i < self.entries.len()
            invariant
                i <= self.entries.len(),
                funcs@ == callbacks_of(self@.take(i as int), scope@),
            decreases self.entries.len() - i,
        {
            proof {
                let next = self@.take(i + 1);
                assert(next.drop_last() =~= self@.take(i as int));
                assert(next.last() == self.entries@[i as int]@);
            }
            if same_text(self.entries[i].scope.as_str(), scope) {
                funcs.push(self.entries[i].func);
            }
            i += 1;
        }
        assert(self@.take(self.entries.len() as int) =~= self@);
        funcs
    }
}

/// The four kinds of callback, each with its registrations.
#[derive(Debug)]
pub struct FixtureRegistry {
    setup: FixtureTable,
    teardown: FixtureTable,
    before_all: FixtureTable,
    after_all: FixtureTable,
}

/// The mathematical content of a [`FixtureRegistry`].
pub struct RegistryView {
    pub setup: Seq<RegistrationView>,
    pub teardown: Seq<RegistrationView>,
    pub before_all: Seq<RegistrationView>,
    pub after_all: Seq<RegistrationView>,
}

impl View for FixtureRegistry {
    type V = RegistryView;

    closed spec fn view(&self) -> RegistryView {
        RegistryView {
            setup: self.setup@,
            teardown: self.teardown@,
            before_all: self.before_all@,
            after_all: self.after_all@,
        }
    }
}

impl FixtureRegistry {
    /// Creates a registry without registrations.
    pub fn new() -> (registry: Self)
        ensures
            registry@ == (RegistryView {
                setup: Seq::empty(),
                teardown: Seq::empty(),
                before_all: Seq::empty(),
                after_all: Seq::empty(),
            }),
    {
        FixtureRegistry {
            setup: FixtureTable::new(),
            teardown: FixtureTable::new(),
            before_all: FixtureTable::new(),
            after_all: FixtureTable::new(),
        }
    }
}

/// Registers a callback to run before each test of a scope.
pub fn register_setup(registry: &mut FixtureRegistry, scope: &str, func: FixtureFunc)
    ensures
        final(registry)@ == (RegistryView {
            setup: old(registry)@.setup.push(RegistrationView { scope: scope@, func }),
            ..old(registry)@
        }),
{
    registry.setup.register(scope, func);
}

/// Registers a callback to run after each test of a scope.
pub fn register_teardown(registry: &mut FixtureRegistry, scope: &str, func: FixtureFunc)
    ensures
        final(registry)@ == (RegistryView {
            teardown: old(registry)@.teardown.push(RegistrationView { scope: scope@, func }),
            ..old(registry)@
        }),
{
    registry.teardown.register(scope, func);
}

/// Registers a callback to run once before the first test of a scope.
pub fn register_before_all(registry: &mut FixtureRegistry, scope: &str, func: FixtureFunc)
    ensures
        final(registry)@ == (RegistryView {
            before_all: old(registry)@.before_all.push(
                RegistrationView { scope: scope@, func },
            ),
            ..old(registry)@
        }),
{
    registry.before_all.register(scope, func);
}

/// Registers a callback to run once after all tests of a scope.
pub fn register_after_all(registry: &mut FixtureRegistry, scope: &str, func: FixtureFunc)
    ensures
        final(registry)@ == (RegistryView {
            after_all: old(registry)@.after_all.push(
                RegistrationView { scope: scope@, func },
            ),
            ..old(registry)@
        }),
{
    registry.after_all.register(scope, func);
}

/// The scopes in which a test has begun, in the order in which they were first
/// claimed, and how many of them have had their after-all callbacks handed out.
#[derive(Debug)]
pub struct ExecutedScopes {
    scopes: Vec<String>,
    finished: usize,
}

/// The mathematical content of [`ExecutedScopes`].
pub struct ExecutedView {
    /// The claimed scopes, in the order of their first claim.
    pub scopes: Seq<Seq<char>>,
    /// The number of scopes, from the front, whose after-all callbacks are done.
    pub finished: nat,
}

impl ExecutedView {
    /// The scopes after `scope` has been claimed: it is added unless it is there.
    pub open spec fn claim(self, scope: Seq<char>) -> ExecutedView {
        if self.scopes.contains(scope) {
            self
        } else {
            ExecutedView { scopes: self.scopes.push(scope), ..self }
        }
    }

    /// The scopes after the after-all callbacks have been handed out: all done.
    pub open spec fn finish(self) -> ExecutedView {
        ExecutedView { finished: self.scopes.len(), ..self }
    }

    /// The scopes whose after-all callbacks are still due.
    pub open spec fn pending(self) -> Seq<Seq<char>> {
        self.scopes.skip(self.finished as int)
    }
}

impl View for ExecutedScopes {
    type V = ExecutedView;

    closed spec fn view(&self) -> ExecutedView {
        ExecutedView { scopes: texts(self.scopes@), finished: self.finished as nat }
    }
}

impl ExecutedScopes {
    /// The set is well formed: no scope is held twice, and no more scopes are done
    /// than are held.
    pub open spec fn wf(&self) -> bool {
        self@.scopes.no_duplicates() && self@.finished <= self@.scopes.len()
    }

    /// Creates the set of a session in which no test has begun.
    pub fn new() -> (executed: Self)
        ensures
            executed.wf(),
            executed@ == (ExecutedView { scopes: Seq::empty(), finished: 0 }),
    {
        let executed = ExecutedScopes { scopes: Vec::new(), finished: 0 };
        assert(texts(executed.scopes@) =~= Seq::<Seq<char>>::empty());
        executed
    }

    /// Tells whether a test has begun in `scope`.
    pub fn contains(&self, scope: &str) -> (found: bool)
        ensures
            found == self@.scopes.contains(scope@),
    {
        let mut i: usize = 0;
        while i < self.scopes.len()
            invariant
                i <= self.scopes.len(),
                forall|k: int| 0 <= k < i ==> texts(self.scopes@)[k] != scope@,
            decreases self.scopes.len() - i,
        {
            if same_text(self.scopes[i].as_str(), scope) {
                assert(texts(self.scopes@)[i as int] == scope@);
                return true;
            }
            i += 1;
        }
        false
    }

    /// Claims `scope` in one step: tells whether it was new, and holds it from now on.
    pub fn claim(&mut self, scope: &str) -> (first: bool)
        requires
            old(self).wf(),
        ensures
            final(self).wf(),
            first == !old(self)@.scopes.contains(scope@),
            final(self)@ == old(self)@.claim(scope@),
    {
        if self.contains(scope) {
            return false;
        }
        let ghost before = texts(self.scopes@);
        self.scopes.push(String::from_str(scope));
        assert(texts(self.scopes@) =~= before.push(scope@));
        true
    }
}


/// The mark that the current thread of execution is inside a test that runs with
/// fixtures.
#[derive(Debug)]
pub struct FixtureContext {
    pub in_fixture_test: bool,
}

/// What failed in a test that ran with fixtures.
#[derive(Debug, Clone, Copy, PartialEq, Eq, Structural)]
pub enum FailureSource {
    /// The test body.
    Body,
    /// The callback with this handle.
    Callback(FixtureFunc),
}

/// What the caller is to do next in a test that runs with fixtures.
#[derive(Debug, Clone, Copy, PartialEq, Eq, Structural)]
pub enum FixtureStep {
    /// Run the callback with this handle, and report whether it failed.
    Run(FixtureFunc),
    /// Run the test body, keeping its failure from escaping, and report whether it
    /// failed.
    RunBody,
    /// The test is over: raise the failure of this source again. Other failures
    /// that were reported are secondary to it.
    Raise(FailureSource),
    /// The test is over and nothing failed.
    Finished,
}

/// One test that runs with fixtures: the callbacks due before its body and those
/// due after it, and how far the test has come.
#[derive(Debug)]
pub struct TestRun {
    before: Vec<FixtureFunc>,
    after: Vec<FixtureFunc>,
    before_done: usize,
    body_done: bool,
    after_done: usize,
    failure: Option<FailureSource>,
    stopped: bool,
}

/// The mathematical content of a [`TestRun`].
pub struct TestRunView {
    /// The callbacks due before the body: before-all, if this test is the first of
    /// its scope, then setup.
    pub before: Seq<FixtureFunc>,
    /// The callbacks due after the body: teardown.
    pub after: Seq<FixtureFunc>,
    /// How many of the steps before the end have been handed out.
    pub cursor: nat,
    /// The first failure that was reported, if any.
    pub failure: Option<FailureSource>,
    /// Whether the end has been handed out.
    pub stopped: bool,
}

impl TestRunView {
    /// The number of steps before the end: the callbacks and the body.
    pub open spec fn length(self) -> nat {
        self.before.len() + 1 + self.after.len()
    }

    /// The step at position `i`: the callbacks due before the body in their order,
    /// the body, the callbacks due after it in their order.
    pub open spec fn step_at(self, i: int) -> FixtureStep {
        if i < self.before.len() {
            FixtureStep::Run(self.before[i])
        } else if i == self.before.len() {
            FixtureStep::RunBody
        } else {
            FixtureStep::Run(self.after[i - self.before.len() - 1])
        }
    }

    /// What a failure of the step at position `i` is a failure of.
    pub open spec fn source_at(self, i: int) -> FailureSource {
        match self.step_at(i) {
            FixtureStep::Run(func) => FailureSource::Callback(func),
            _ => FailureSource::Body,
        }
    }

    /// The first failure once the outcome of the step handed out last is known. A
    /// failure reported earlier stays: so the body's failure outranks those of the
    /// callbacks that run after it.
    pub open spec fn note(self, previous_failed: bool) -> Option<FailureSource> {
        if previous_failed && !self.stopped && self.cursor > 0 && self.failure is None {
            Some(self.source_at(self.cursor - 1))
        } else {
            self.failure
        }
    }

    /// Whether the test ends now: it has ended before, a callback due before the
    /// body has failed, or every step has been handed out.
    pub open spec fn ends(self, previous_failed: bool) -> bool {
        ||| self.stopped
        ||| self.note(previous_failed) is Some && self.cursor <= self.before.len()
        ||| self.cursor >= self.length()
    }

    /// The step that is handed out once the outcome of the last one is known.
    pub open spec fn next_step(self, previous_failed: bool) -> FixtureStep {
        if self.stopped {
            FixtureStep::Finished
        } else if self.ends(previous_failed) {
            match self.note(previous_failed) {
                Some(source) => FixtureStep::Raise(source),
                None => FixtureStep::Finished,
            }
        } else {
            self.step_at(self.cursor as int)
        }
    }

    /// The run after that step has been handed out.
    pub open spec fn advance(self, previous_failed: bool) -> TestRunView {
        if self.ends(previous_failed) {
            TestRunView { failure: self.note(previous_failed), stopped: true, ..self }
        } else {
            TestRunView {
                failure: self.note(previous_failed),
                cursor: self.cursor + 1,
                ..self
            }
        }
    }
}

impl View for TestRun {
    type V = TestRunView;

    closed spec fn view(&self) -> TestRunView {
        TestRunView {
            before: self.before@,
            after: self.after@,
            cursor: (self.before_done + (if self.body_done {
                1nat
            } else {
                0nat
            }) + self.after_done) as nat,
            failure: self.failure,
            stopped: self.stopped,
        }
    }
}

impl TestRun {
    /// The run is well formed: the steps have been handed out in their order, and
    /// no more of them than there are.
    pub closed spec fn wf(&self) -> bool {
        &&& self.before_done <= self.before.len()
        &&& self.after_done <= self.after.len()
        &&& self.body_done ==> self.before_done == self.before.len()
        &&& self.after_done > 0 ==> self.body_done
    }

    /// Hands out the next step. `previous_failed` tells whether the step handed
    /// out by the call before this one failed; the first call passes `false`. The
    /// thread leaves the fixture test when the end is handed out.
    pub fn advance(&mut self, context: &mut FixtureContext, previous_failed: bool) -> (step:
        FixtureStep)
        requires
            old(self).wf(),
        ensures
            final(self).wf(),
            step == old(self)@.next_step(previous_failed),
            final(self)@ == old(self)@.advance(previous_failed),
            final(context).in_fixture_test == (old(context).in_fixture_test && !old(
                self,
            )@.ends(previous_failed)),
    {
        if self.stopped {
            context.in_fixture_test = false;
            return FixtureStep::Finished;
        }
        if previous_failed && self.failure.is_none() {
            if self.after_done > 0 {
                self.failure = Some(FailureSource::Callback(self.after[self.after_done - 1]));
            } else if self.body_done {
                self.failure = Some(FailureSource::Body);
            } else if self.before_done > 0 {
                self.failure = Some(FailureSource::Callback(self.before[self.before_done - 1]));
            }
        }
        let failed_early = self.failure.is_some() && !self.body_done;
        let all_done = self.body_done && self.after_done == self.after.len();
        if failed_early || all_done {
            self.stopped = true;
            context.in_fixture_test = false;
            return match self.failure {
                Some(source) => FixtureStep::Raise(source),
                None => FixtureStep::Finished,
            };
        }
        if self.before_done < self.before.len() {
            let func = self.before[self.before_done];
            self.before_done += 1;
            FixtureStep::Run(func)
        } else if !self.body_done {
            self.body_done = true;
            FixtureStep::RunBody
        } else {
            let func = self.after[self.after_done];
            self.after_done += 1;
            FixtureStep::Run(func)
        }
    }
}

/// The callbacks of every scope in `scopes`, scope by scope.
pub open spec fn callbacks_of_all(entries: Seq<RegistrationView>, scopes: Seq<Seq<char>>) -> Seq<
    FixtureFunc,
>
    decreases scopes.len(),
{
    if scopes.len() == 0 {
        Seq::empty()
    } else {
        callbacks_of_all(entries, scopes.drop_last()) + callbacks_of(entries, scopes.last())
    }
}

/// The callbacks due before the body of a test of `scope`: the before-all
/// callbacks if no test of the scope has begun yet, then the setup callbacks.
pub open spec fn due_before(registry: RegistryView, executed: ExecutedView, scope: Seq<char>) -> Seq<
    FixtureFunc,
> {
    if executed.scopes.contains(scope) {
        callbacks_of(registry.setup, scope)
    } else {
        callbacks_of(registry.before_all, scope) + callbacks_of(registry.setup, scope)
    }
}

/// Claims `scope`, and lists its before-all callbacks if this was the first claim;
/// the claim is made before any of them runs.
pub fn run_before_all_if_needed(
    registry: &FixtureRegistry,
    executed: &mut ExecutedScopes,
    scope: &str,
) -> (due: Vec<FixtureFunc>)
    requires
        old(executed).wf(),
    ensures
        final(executed).wf(),
        final(executed)@ == old(executed)@.claim(scope@),
        due@ == if old(executed)@.scopes.contains(scope@) {
            Seq::empty()
        } else {
            callbacks_of(registry@.before_all, scope@)
        },
{
    if executed.claim(scope) {
        registry.before_all.callbacks(scope)
    } else {
        Vec::new()
    }
}

/// Records that a test of `scope` has run, so that its after-all callbacks become
/// due; it makes no difference if the scope is recorded already.
pub fn register_after_all_handler(executed: &mut ExecutedScopes, scope: &str)
    requires
        old(executed).wf(),
    ensures
        final(executed).wf(),
        final(executed)@ == old(executed)@.claim(scope@),
{
    let _ = executed.claim(scope);
}

/// Begins a test of `scope`: marks the thread as inside a fixture test, claims the
/// scope, and lays out the run. The caller drives it with [`TestRun::advance`].
pub fn run_test_with_fixtures(
    registry: &FixtureRegistry,
    executed: &mut ExecutedScopes,
    context: &mut FixtureContext,
    scope: &str,
) -> (run: TestRun)
    requires
        old(executed).wf(),
    ensures
        final(executed).wf(),
        final(executed)@ == old(executed)@.claim(scope@),
        final(context).in_fixture_test,
        run.wf(),
        run@ == (TestRunView {
            before: due_before(registry@, old(executed)@, scope@),
            after: callbacks_of(registry@.teardown, scope@),
            cursor: 0,
            failure: None,
            stopped: false,
        }),
{
    context.in_fixture_test = true;
    let mut before = run_before_all_if_needed(registry, executed, scope);
    let mut setup = registry.setup.callbacks(scope);
    before.append(&mut setup);
    assert(before@ =~= due_before(registry@, old(executed)@, scope@));
    let after = registry.teardown.callbacks(scope);
    TestRun {
        before,
        after,
        before_done: 0,
        body_done: false,
        after_done: 0,
        failure: None,
        stopped: false,
    }
}

/// Lists the after-all callbacks that are due: those of every scope in which a
/// test has begun and whose after-all callbacks have not been handed out yet,
/// scope by scope. The scopes are then done: a second call lists nothing.
pub fn run_after_all_fixtures(registry: &FixtureRegistry, executed: &mut ExecutedScopes) -> (due:
    Vec<FixtureFunc>)
    requires
        old(executed).wf(),
    ensures
        final(executed).wf(),
        final(executed)@ == old(executed)@.finish(),
        due@ == callbacks_of_all(registry@.after_all, old(executed)@.pending()),
{
    let mut due: Vec<FixtureFunc> = Vec::new();
    let start: usize = executed.finished;
    let mut i: usize = start;
    let ghost pending = executed@.pending();
    assert(pending.take(0) =~= Seq::<Seq<char>>::empty());
    while i < executed.scopes.len()
        invariant
            start <= i <= executed.scopes.len(),
            start == executed.finished,
            pending == executed@.pending(),
            due@ == callbacks_of_all(registry@.after_all, pending.take(i - start)),
        decreases executed.scopes.len() - i,
    {
        proof {
            let next = pending.take(i - start + 1);
            assert(next.drop_last() =~= pending.take(i - start));
            assert(next.last() == executed.scopes@[i as int]@);
        }
        let mut funcs = registry.after_all.callbacks(executed.scopes[i].as_str());
        due.append(&mut funcs);
        i += 1;
    }
    assert(pending.take(i - start) =~= pending);
    executed.finished = executed.scopes.len();
    due
}

/// Tells whether the thread is inside a test that runs with fixtures.
pub fn is_in_fixture_test(context: &FixtureContext) -> (inside: bool)
    ensures
        inside == context.in_fixture_test,
{
    context.in_fixture_test
}


/// Registration order is kept and scopes do not mix: a new registration comes
/// last among the callbacks of its own scope and leaves every other scope as it was.
pub proof fn lemma_registration_order(
    entries: Seq<RegistrationView>,
    scope: Seq<char>,
    func: FixtureFunc,
    other: Seq<char>,
)
    ensures
        callbacks_of(entries.push(RegistrationView { scope, func }), scope) == callbacks_of(
            entries,
            scope,
        ).push(func),
        other != scope ==> callbacks_of(entries.push(RegistrationView { scope, func }), other)
            == callbacks_of(entries, other),
{
    let extended = entries.push(RegistrationView { scope, func });
    assert(extended.drop_last() =~= entries);
}

/// The steps of a test as they are laid out when no callback fails: the callbacks
/// due before the body in their order, the body, the callbacks due after the body
/// in their order, and the end, which raises the body's failure again if it failed.
pub open spec fn script(run: TestRunView, body_fails: bool) -> Seq<FixtureStep> {
    Seq::new(
        run.length() + 1,
        |i: int|
            if i < run.length() {
                run.step_at(i)
            } else if body_fails {
                FixtureStep::Raise(FailureSource::Body)
            } else {
                FixtureStep::Finished
            },
    )
}

/// The next `count` steps that a run hands out when no callback fails and the body
/// fails as `body_fails` says. `previous_failed` is the outcome of the step handed
/// out last.
pub open spec fn steps_from(
    run: TestRunView,
    body_fails: bool,
    previous_failed: bool,
    count: nat,
) -> Seq<FixtureStep>
    decreases count,
{
    if count == 0 {
        Seq::empty()
    } else {
        let step = run.next_step(previous_failed);
        seq![step] + steps_from(
            run.advance(previous_failed),
            body_fails,
            step == FixtureStep::RunBody && body_fails,
            (count - 1) as nat,
        )
    }
}

/// From any point of a run in which only the body may have failed, the steps still
/// to come are the rest of the script.
proof fn lemma_rest_of_script(run: TestRunView, body_fails: bool, previous_failed: bool)
    requires
        !run.stopped,
        run.cursor <= run.length(),
        previous_failed == (body_fails && run.cursor == run.before.len() + 1),
        run.failure == if body_fails && run.cursor > run.before.len() + 1 {
            Some(FailureSource::Body)
        } else {
            None
        },
    ensures
        steps_from(run, body_fails, previous_failed, (run.length() + 1 - run.cursor) as nat)
            == script(run, body_fails).skip(run.cursor as int),
    decreases run.length() - run.cursor,
{
    let step = run.next_step(previous_failed);
    let next = run.advance(previous_failed);
    let rest = script(run, body_fails).skip(run.cursor as int);
    assert(rest[0] == step);
    if run.cursor < run.length() {
        let failed = step == FixtureStep::RunBody && body_fails;
        lemma_rest_of_script(next, body_fails, failed);
        assert(script(next, body_fails) =~= script(run, body_fails));
        assert(seq![step] + script(run, body_fails).skip(run.cursor as int + 1) =~= rest);
    } else {
        assert(steps_from(next, body_fails, false, 0) =~= Seq::<FixtureStep>::empty());
        assert(seq![step] + Seq::<FixtureStep>::empty() =~= rest);
    }
}

/// Setup runs before the body and teardown after it, also when the body fails: a
/// run in which no callback fails hands out its script, whatever the body does, and
/// a failed body is raised again only at the end.
pub proof fn lemma_run_follows_script(run: TestRunView, body_fails: bool)
    requires
        run.cursor == 0,
        run.failure is None,
        !run.stopped,
    ensures
        steps_from(run, body_fails, false, run.length() + 1) == script(run, body_fails),
{
    lemma_rest_of_script(run, body_fails, false);
    assert(script(run, body_fails).skip(0) =~= script(run, body_fails));
}

/// Teardown is unconditional: once the body has been handed out, each callback due
/// after it is handed out in its turn, whatever has failed.
pub proof fn lemma_teardown_is_unconditional(run: TestRunView, previous_failed: bool)
    requires
        !run.stopped,
        run.before.len() < run.cursor < run.length(),
    ensures
        run.next_step(previous_failed) == FixtureStep::Run(
            run.after[run.cursor - run.before.len() - 1],
        ),
        run.advance(previous_failed).cursor == run.cursor + 1,
        !run.advance(previous_failed).stopped,
{
}

/// The first failure is the one that is raised: a failure that has been noted is
/// not replaced by a later one, and at the end of the run it is raised. So a failed
/// body is raised again whatever the callbacks behind it do.
pub proof fn lemma_first_failure_is_raised(run: TestRunView, previous_failed: bool)
    requires
        !run.stopped,
        run.failure is Some,
    ensures
        run.advance(previous_failed).failure == run.failure,
        run.ends(previous_failed) ==> run.next_step(previous_failed) == FixtureStep::Raise(
            run.failure->0,
        ),
{
}

/// A failure of the body is noted as such when the next step is asked for.
pub proof fn lemma_body_failure_is_noted(run: TestRunView)
    requires
        !run.stopped,
        run.failure is None,
        run.cursor == run.before.len() + 1,
    ensures
        run.advance(true).failure == Some(FailureSource::Body),
{
}

/// A run hands out no callback but those due before and after its body; the
/// after-all callbacks are not among its steps.
pub proof fn lemma_run_keeps_to_its_callbacks(run: TestRunView, previous_failed: bool)
    requires
        run.cursor <= run.length(),
    ensures
        match run.next_step(previous_failed) {
            FixtureStep::Run(func) => run.before.contains(func) || run.after.contains(func),
            _ => true,
        },
{
    if !run.ends(previous_failed) {
        let i = run.cursor as int;
        if i < run.before.len() {
            assert(run.before.contains(run.before[i]));
        } else if i > run.before.len() {
            assert(run.after.contains(run.after[i - run.before.len() - 1]));
        }
    }
}

/// The callbacks due before the body in each of `count` tests of `scope` that
/// begin one after another.
pub open spec fn successive_before(
    registry: RegistryView,
    executed: ExecutedView,
    scope: Seq<char>,
    count: nat,
) -> Seq<Seq<FixtureFunc>>
    decreases count,
{
    if count == 0 {
        Seq::empty()
    } else {
        seq![due_before(registry, executed, scope)] + successive_before(
            registry,
            executed.claim(scope),
            scope,
            (count - 1) as nat,
        )
    }
}

/// The before-all callbacks of a scope run once: of the tests of the scope that
/// begin one after another, only the first of a scope not yet claimed has them
/// before its setup callbacks; every other test has its setup callbacks alone.
pub proof fn lemma_before_all_once(
    registry: RegistryView,
    executed: ExecutedView,
    scope: Seq<char>,
    count: nat,
    i: int,
)
    requires
        0 <= i < count,
    ensures
        successive_before(registry, executed, scope, count).len() == count,
        successive_before(registry, executed, scope, count)[i] == if i == 0
            && !executed.scopes.contains(scope) {
            callbacks_of(registry.before_all, scope) + callbacks_of(registry.setup, scope)
        } else {
            callbacks_of(registry.setup, scope)
        },
    decreases count,
{
    let claimed = executed.claim(scope);
    assert(claimed.scopes.contains(scope)) by {
        if !executed.scopes.contains(scope) {
            assert(claimed.scopes[executed.scopes.len() as int] == scope);
        }
    }
    if count > 1 {
        if i > 0 {
            lemma_before_all_once(registry, claimed, scope, (count - 1) as nat, i - 1);
        } else {
            lemma_before_all_once(registry, claimed, scope, (count - 1) as nat, 0);
        }
    } else {
        assert(successive_before(registry, claimed, scope, 0).len() == 0);
    }
}

/// The callbacks of two lists of scopes, one after the other.
pub proof fn lemma_callbacks_of_all_concat(
    entries: Seq<RegistrationView>,
    front: Seq<Seq<char>>,
    back: Seq<Seq<char>>,
)
    ensures
        callbacks_of_all(entries, front + back) == callbacks_of_all(entries, front)
            + callbacks_of_all(entries, back),
    decreases back.len(),
{
    if back.len() == 0 {
        assert(front + back =~= front);
        assert(callbacks_of_all(entries, front) + Seq::<FixtureFunc>::empty() =~= callbacks_of_all(
            entries,
            front,
        ));
    } else {
        lemma_callbacks_of_all_concat(entries, front, back.drop_last());
        assert((front + back).drop_last() =~= front + back.drop_last());
        assert((front + back).last() == back.last());
        assert(callbacks_of_all(entries, front) + callbacks_of_all(entries, back.drop_last())
            + callbacks_of(entries, back.last()) =~= callbacks_of_all(entries, front) + (
        callbacks_of_all(entries, back.drop_last()) + callbacks_of(entries, back.last())));
    }
}

/// The after-all callbacks of a scope run once at the end of a session: where the
/// scope is pending, its callbacks stand once among those handed out, between
/// those of the scopes claimed before it and after it, none of which is that
/// scope; and once they are handed out nothing is pending, so that a second call
/// hands out nothing.
pub proof fn lemma_after_all_once(
    registry: RegistryView,
    executed: ExecutedView,
    scope: Seq<char>,
    at: int,
)
    requires
        executed.scopes.no_duplicates(),
        executed.finished <= executed.scopes.len(),
        0 <= at < executed.pending().len(),
        executed.pending()[at] == scope,
    ensures
        callbacks_of_all(registry.after_all, executed.pending()) == callbacks_of_all(
            registry.after_all,
            executed.pending().take(at),
        ) + callbacks_of(registry.after_all, scope) + callbacks_of_all(
            registry.after_all,
            executed.pending().skip(at + 1),
        ),
        !executed.pending().take(at).contains(scope),
        !executed.pending().skip(at + 1).contains(scope),
        executed.finish().pending() == Seq::<Seq<char>>::empty(),
        callbacks_of_all(registry.after_all, executed.finish().pending()) == Seq::<
            FixtureFunc,
        >::empty(),
{
    let pending = executed.pending();
    let front = pending.take(at);
    let back = pending.skip(at + 1);
    let middle = seq![scope];
    assert(pending =~= front + middle + back);
    lemma_callbacks_of_all_concat(registry.after_all, front + middle, back);
    lemma_callbacks_of_all_concat(registry.after_all, front, middle);
    assert(middle.drop_last() =~= Seq::<Seq<char>>::empty());
    assert(middle.last() == scope);
    assert(callbacks_of_all(registry.after_all, middle.drop_last()) =~= Seq::<FixtureFunc>::empty());
    assert(callbacks_of_all(registry.after_all, middle) =~= callbacks_of(
        registry.after_all,
        scope,
    ));
    assert(executed.finish().pending() =~= Seq::<Seq<char>>::empty());
    assert(!front.contains(scope)) by {
        if front.contains(scope) {
            let k = choose|k: int| 0 <= k < front.len() && front[k] == scope;
            assert(executed.scopes[executed.finished + k] == scope);
            assert(executed.scopes[executed.finished + at] == scope);
        }
    }
    assert(!back.contains(scope)) by {
        if back.contains(scope) {
            let k = choose|k: int| 0 <= k < back.len() && back[k] == scope;
            assert(executed.scopes[executed.finished + at + 1 + k] == scope);
            assert(executed.scopes[executed.finished + at] == scope);
        }
    }
}

} // verus!
