//! The reporter: session counters, captured failures, and the decision whether an
//! event is rendered, with deduplication and silent mode.

use crate::assertion::{Assertion, ChainView};
use crate::events::{AssertionEvent, EventEmitter, EventKind, EventView};
use crate::keys::{chain_key, lemma_key_tells_chains_apart, report_key};
use crate::text::{same_text, texts};
use vstd::prelude::*;

verus! {

/// The complete result of a test session.
#[derive(Debug)]
pub struct TestSessionResult {
    /// Number of chains that passed.
    pub passed_count: usize,
    /// Number of chains that failed.
    pub failed_count: usize,
    /// The failed chains, in the order in which they failed.
    pub failures: Vec<Assertion<()>>,
}

impl Default for TestSessionResult {
    fn default() -> (session: Self)
        ensures
            session.passed_count == 0,
            session.failed_count == 0,
            session.failures@.len() == 0,
    {
        TestSessionResult { passed_count: 0, failed_count: 0, failures: Vec::new() }
    }
}

/// The contents of a list of chains.
pub open spec fn chain_views(chains: Seq<Assertion<()>>) -> Seq<ChainView> {
    Seq::new(chains.len(), |i: int| chains[i]@)
}

/// Collects results and decides what is rendered.
#[derive(Debug)]
pub struct Reporter {
    session: TestSessionResult,
    reported: Vec<String>,
    deduplicate: bool,
    silent: bool,
    success_handler: usize,
    failure_handler: usize,
}

/// The mathematical content of a [`Reporter`].
pub struct ReporterView {
    /// Number of successes received in this session.
    pub passed_count: nat,
    /// Number of failures received in this session.
    pub failed_count: nat,
    /// The failed chains, in the order in which they were received.
    pub failures: Seq<ChainView>,
    /// The keys of the chains that have been rendered since the cache was last
    /// reset.
    pub reported: Set<Seq<char>>,
    /// Whether a chain is rendered only the first time it is seen.
    pub deduplicate: bool,
    /// Whether nothing is rendered at all.
    pub silent: bool,
}

impl ReporterView {
    /// Whether an event about `chain` is rendered: not in silent mode, and with
    /// deduplication only a chain that has not been rendered before.
    pub open spec fn renders(self, chain: ChainView) -> bool {
        !self.silent && (!self.deduplicate || !self.reported.contains(chain_key(chain)))
    }

    /// The rendered keys after an event about `chain`: the key is remembered where
    /// deduplication let the chain be rendered.
    pub open spec fn remember(self, chain: ChainView) -> Set<Seq<char>> {
        if self.deduplicate && self.renders(chain) {
            self.reported.insert(chain_key(chain))
        } else {
            self.reported
        }
    }

    /// The reporter after a success of `chain`.
    pub open spec fn after_success(self, chain: ChainView) -> ReporterView {
        ReporterView {
            passed_count: self.passed_count + 1,
            reported: self.remember(chain),
            ..self
        }
    }

    /// The reporter after a failure of `chain`: the failure is counted and kept
    /// whether or not it is rendered.
    pub open spec fn after_failure(self, chain: ChainView) -> ReporterView {
        ReporterView {
            failed_count: self.failed_count + 1,
            failures: self.failures.push(chain),
            reported: self.remember(chain),
            ..self
        }
    }

    /// The reporter after a summary, ready for the next session: nothing counted,
    /// no failure kept, nothing remembered as rendered, and deduplication on again.
    /// Silent mode is as it was.
    pub open spec fn after_summary(self) -> ReporterView {
        ReporterView {
            passed_count: 0,
            failed_count: 0,
            failures: Seq::empty(),
            reported: Set::empty(),
            deduplicate: true,
            ..self
        }
    }
}

impl View for Reporter {
    type V = ReporterView;

    closed spec fn view(&self) -> ReporterView {
        ReporterView {
            passed_count: self.session.passed_count as nat,
            failed_count: self.session.failed_count as nat,
            failures: chain_views(self.session.failures@),
            reported: texts(self.reported@).to_set(),
            deduplicate: self.deduplicate,
            silent: self.silent,
        }
    }
}

impl Reporter {
    /// The reporter is well formed: no key is remembered twice.
    pub closed spec fn wf(&self) -> bool {
        texts(self.reported@).no_duplicates()
    }

    /// The number under which the reporter's handler for successes is registered.
    pub closed spec fn success_subscription(&self) -> usize {
        self.success_handler
    }

    /// The number under which the reporter's handler for failures is registered.
    pub closed spec fn failure_subscription(&self) -> usize {
        self.failure_handler
    }

    /// Creates the reporter of a new session and subscribes it to successes and to
    /// failures: nothing counted, nothing remembered, deduplication on, silent mode
    /// off.
    pub fn init(emitter: &mut EventEmitter) -> (reporter: Self)
        ensures
            final(emitter)@ == old(emitter)@.push(EventKind::Success).push(EventKind::Failure),
            reporter.success_subscription() == old(emitter)@.len(),
            reporter.failure_subscription() == old(emitter)@.len() + 1,
            reporter.wf(),
            reporter@ == (ReporterView {
                passed_count: 0,
                failed_count: 0,
                failures: Seq::empty(),
                reported: Set::empty(),
                deduplicate: true,
                silent: false,
            }),
    {
        let success_handler: usize = emitter.on_success();
        let failure_handler: usize = emitter.on_failure();
        let reporter = Reporter {
            session: TestSessionResult::default(),
            reported: Vec::new(),
            deduplicate: true,
            silent: false,
            success_handler,
            failure_handler,
        };
        assert(chain_views(reporter.session.failures@) =~= Seq::<ChainView>::empty());
        assert(texts(reporter.reported@).to_set() =~= Set::<Seq<char>>::empty());
        reporter
    }

    /// Tells whether `handler` is the reporter's handler for successes.
    pub fn handles_success(&self, handler: usize) -> (own: bool)
        ensures
            own == (handler == self.success_subscription()),
    {
        handler == self.success_handler
    }

    /// Tells whether `handler` is the reporter's handler for failures.
    pub fn handles_failure(&self, handler: usize) -> (own: bool)
        ensures
            own == (handler == self.failure_subscription()),
    {
        handler == self.failure_handler
    }

    /// Tells whether `key` is remembered as rendered.
    pub fn has_reported(&self, key: &str) -> (found: bool)
        ensures
            found == self@.reported.contains(key@),
    {
        let mut i: usize = 0;
        while i < self.reported.len()
            invariant
                i <= self.reported.len(),
                forall|k: int| 0 <= k < i ==> texts(self.reported@)[k] != key@,
            decreases self.reported.len() - i,
        {
            if same_text(self.reported[i].as_str(), key) {
                assert(texts(self.reported@)[i as int] == key@);
                return true;
            }
            i += 1;
        }
        false
    }

    /// The number of keys remembered as rendered.
    pub fn reported_count(&self) -> (count: usize)
        requires
            self.wf(),
        ensures
            count == self@.reported.len(),
    {
        proof {
            texts(self.reported@).unique_seq_to_set();
        }
        self.reported.len()
    }

    /// Gates the rendering of an event about a chain with the key `key`.
    fn should_report(&mut self, key: String, Ghost(chain): Ghost<ChainView>) -> (render: bool)
        requires
            old(self).wf(),
            key@ == chain_key(chain),
        ensures
            render == old(self)@.renders(chain),
            final(self)@ == (ReporterView { reported: old(self)@.remember(chain), ..old(self)@ }),
            final(self).wf(),
            final(self).success_subscription() == old(self).success_subscription(),
            final(self).failure_subscription() == old(self).failure_subscription(),
    {
        if self.silent {
            return false;
        }
        if !self.deduplicate {
            return true;
        }
        let fresh = self.mark_reported(key);
        proof {
            if !fresh {
                assert(old(self)@.reported.insert(key@) =~= old(self)@.reported);
            }
        }
        fresh
    }

    /// Remembers `key` as rendered; tells whether it was new.
    pub fn mark_reported(&mut self, key: String) -> (fresh: bool)
        requires
            old(self).wf(),
        ensures
            fresh == !old(self)@.reported.contains(key@),
            final(self)@ == (ReporterView {
                reported: old(self)@.reported.insert(key@),
                ..old(self)@
            }),
            final(self).wf(),
            final(self).success_subscription() == old(self).success_subscription(),
            final(self).failure_subscription() == old(self).failure_subscription(),
    {
        if self.has_reported(key.as_str()) {
            assert(self@.reported.insert(key@) =~= self@.reported);
            return false;
        }
        let ghost before = texts(self.reported@);
        self.reported.push(key);
        proof {
            let after = texts(self.reported@);
            assert(after =~= before.push(key@));
            before.lemma_push_to_set_commute(key@);
        }
        true
    }

    /// Receives a success: counts it and tells whether it is to be rendered.
    pub fn handle_success_event(&mut self, result: Assertion<()>) -> (render: bool)
        requires
            old(self).wf(),
            old(self)@.passed_count < usize::MAX,
        ensures
            render == old(self)@.renders(result@),
            final(self)@ == old(self)@.after_success(result@),
            final(self).wf(),
            final(self).success_subscription() == old(self).success_subscription(),
            final(self).failure_subscription() == old(self).failure_subscription(),
    {
        self.session.passed_count += 1;
        let key = report_key(&result);
        self.should_report(key, Ghost(result@))
    }

    /// Receives a failure: counts it, keeps the chain, and tells whether it is to
    /// be rendered.
    pub fn handle_failure_event(&mut self, result: Assertion<()>) -> (render: bool)
        requires
            old(self).wf(),
            old(self)@.failed_count < usize::MAX,
        ensures
            render == old(self)@.renders(result@),
            final(self)@ == old(self)@.after_failure(result@),
            final(self).wf(),
            final(self).success_subscription() == old(self).success_subscription(),
            final(self).failure_subscription() == old(self).failure_subscription(),
    {
        let key = report_key(&result);
        let ghost chain = result@;
        let ghost before = chain_views(self.session.failures@);
        self.session.failed_count += 1;
        self.session.failures.push(result);
        assert(chain_views(self.session.failures@) =~= before.push(chain));
        self.should_report(key, Ghost(chain))
    }

    /// Forgets which chains have been rendered.
    pub fn reset_message_cache(&mut self)
        ensures
            final(self)@ == (ReporterView { reported: Set::empty(), ..old(self)@ }),
            final(self).wf(),
            final(self).success_subscription() == old(self).success_subscription(),
            final(self).failure_subscription() == old(self).failure_subscription(),
    {
        self.reported = Vec::new();
        assert(texts(self.reported@).to_set() =~= Set::<Seq<char>>::empty());
    }

    /// Renders a chain only the first time it is seen.
    pub fn enable_deduplication(&mut self)
        requires
            old(self).wf(),
        ensures
            final(self)@ == (ReporterView { deduplicate: true, ..old(self)@ }),
            final(self).wf(),
            final(self).success_subscription() == old(self).success_subscription(),
            final(self).failure_subscription() == old(self).failure_subscription(),
    {
        self.deduplicate = true;
    }

    /// Renders a chain every time it is seen.
    pub fn disable_deduplication(&mut self)
        requires
            old(self).wf(),
        ensures
            final(self)@ == (ReporterView { deduplicate: false, ..old(self)@ }),
            final(self).wf(),
            final(self).success_subscription() == old(self).success_subscription(),
            final(self).failure_subscription() == old(self).failure_subscription(),
    {
        self.deduplicate = false;
    }

    /// Renders nothing; events are still counted.
    pub fn enable_silent_mode(&mut self)
        requires
            old(self).wf(),
        ensures
            final(self)@ == (ReporterView { silent: true, ..old(self)@ }),
            final(self).wf(),
            final(self).success_subscription() == old(self).success_subscription(),
            final(self).failure_subscription() == old(self).failure_subscription(),
    {
        self.silent = true;
    }

    /// Renders again.
    pub fn disable_silent_mode(&mut self)
        requires
            old(self).wf(),
        ensures
            final(self)@ == (ReporterView { silent: false, ..old(self)@ }),
            final(self).wf(),
            final(self).success_subscription() == old(self).success_subscription(),
            final(self).failure_subscription() == old(self).failure_subscription(),
    {
        self.silent = false;
    }

    /// Tells whether deduplication is on.
    pub fn is_deduplication_enabled(&self) -> (enabled: bool)
        ensures
            enabled == self@.deduplicate,
    {
        self.deduplicate
    }

    /// Tells whether silent mode is on.
    pub fn is_silent(&self) -> (silent: bool)
        ensures
            silent == self@.silent,
    {
        self.silent
    }

    /// The counters and the failures of the session so far.
    pub fn session(&self) -> (session: &TestSessionResult)
        ensures
            session.passed_count == self@.passed_count,
            session.failed_count == self@.failed_count,
            chain_views(session.failures@) == self@.failures,
    {
        &self.session
    }

    /// Ends a session: the caller renders [`Reporter::session`] before the call and
    /// emits the event that is returned. The session result is reset, what was
    /// remembered as rendered is forgotten and deduplication is switched on, so
    /// that nothing of this session carries over to the next.
    pub fn summarize(&mut self) -> (event: AssertionEvent)
        ensures
            event@ == EventView::SessionCompleted,
            final(self)@ == old(self)@.after_summary(),
            final(self).wf(),
            final(self).success_subscription() == old(self).success_subscription(),
            final(self).failure_subscription() == old(self).failure_subscription(),
    {
        self.session = TestSessionResult::default();
        assert(chain_views(self.session.failures@) =~= Seq::<ChainView>::empty());
        self.reset_message_cache();
        self.enable_deduplication();
        AssertionEvent::SessionCompleted
    }
}

/// Two events about chains with the same label and steps are both counted: the
/// counter rises by one with each. With deduplication exactly the first of them is
/// rendered, provided the chain has not been rendered before, and one key is
/// remembered for the two; without deduplication both are rendered and nothing is
/// remembered. Silent mode is taken to be off.
pub proof fn lemma_deduplication(reporter: ReporterView, first: ChainView, second: ChainView)
    requires
        !reporter.silent,
        first.label == second.label,
        first.steps == second.steps,
    ensures
        reporter.after_success(first).passed_count == reporter.passed_count + 1,
        reporter.after_success(first).after_success(second).passed_count == reporter.passed_count
            + 2,
        reporter.deduplicate && !reporter.reported.contains(chain_key(first)) ==> {
            &&& reporter.renders(first)
            &&& !reporter.after_success(first).renders(second)
            &&& reporter.after_success(first).after_success(second).reported
                == reporter.reported.insert(chain_key(first))
        },
        reporter.deduplicate && reporter.reported == Set::<Seq<char>>::empty() ==> {
            &&& reporter.after_success(first).after_success(second).reported == set![
                chain_key(first),
            ]
            &&& reporter.after_success(first).after_success(second).reported.len() == 1
        },
        !reporter.deduplicate ==> {
            &&& reporter.renders(first)
            &&& reporter.after_success(first).renders(second)
            &&& reporter.after_success(first).after_success(second).reported == reporter.reported
        },
{
    if reporter.deduplicate && reporter.reported == Set::<Seq<char>>::empty() {
        assert(reporter.reported.insert(chain_key(first)) =~= set![chain_key(first)]);
    }
}

/// Chains that differ in their label or in their steps are told apart: an event
/// about one of them does not keep the other from being rendered.
pub proof fn lemma_other_chains_are_rendered(
    reporter: ReporterView,
    first: ChainView,
    second: ChainView,
)
    requires
        !reporter.silent,
        first.label != second.label || first.steps != second.steps,
        !reporter.reported.contains(chain_key(second)),
    ensures
        reporter.after_success(first).renders(second),
        reporter.after_failure(first).renders(second),
{
    lemma_key_tells_chains_apart(first, second);
}

} // verus!
