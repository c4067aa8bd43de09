//! The assertion chain: matcher outcomes joined by AND and OR, and their reduction
//! to one result.

use crate::events::{AssertionEvent, EventView};
use crate::sentence::{raw_text, sentence_of, AssertionSentence, SentenceView};
use crate::text::{contains, has_infix, skip_leading, trim_leading};
use vstd::prelude::*;
use vstd::string::*;

verus! {

/// A logical operation between two neighbouring steps of a chain.
#[derive(Debug, Clone, Copy, PartialEq, Eq, Structural)]
pub enum LogicalOp {
    /// Both sides must pass.
    And,
    /// One side must pass.
    Or,
}

/// One evaluated matcher outcome in a chain.
#[derive(Debug)]
pub struct AssertionStep {
    /// The sentence that describes the matcher.
    pub sentence: AssertionSentence,
    /// Whether this step passed.
    pub passed: bool,
    /// The connector between this step and the next one; absent on the last step.
    pub logical_op: Option<LogicalOp>,
}

/// The mathematical content of an [`AssertionStep`].
pub struct StepView {
    pub sentence: SentenceView,
    pub passed: bool,
    pub logical_op: Option<LogicalOp>,
}

impl View for AssertionStep {
    type V = StepView;

    open spec fn view(&self) -> StepView {
        StepView { sentence: self.sentence@, passed: self.passed, logical_op: self.logical_op }
    }
}

impl Clone for AssertionStep {
    fn clone(&self) -> (copy: Self)
        ensures
            copy@ == self@,
    {
        AssertionStep {
            sentence: self.sentence.clone(),
            passed: self.passed,
            logical_op: self.logical_op,
        }
    }
}

/// The contents of a list of steps.
pub open spec fn step_views(steps: Seq<AssertionStep>) -> Seq<StepView> {
    Seq::new(steps.len(), |i: int| steps[i]@)
}

/// Whether the step at `i` is followed by an OR connector.
pub open spec fn or_after(steps: Seq<StepView>, i: int) -> bool {
    steps[i].logical_op == Some(LogicalOp::Or)
}

/// Whether the steps from `lo` to `hi` (both included) form a segment: a maximal run
/// that no OR connector divides. A run begins at the first step or behind an OR, and
/// ends at the last step or at an OR; the connector of the last step joins nothing.
pub open spec fn is_segment(steps: Seq<StepView>, lo: int, hi: int) -> bool {
    &&& 0 <= lo <= hi < steps.len()
    &&& lo == 0 || or_after(steps, lo - 1)
    &&& hi == steps.len() - 1 || or_after(steps, hi)
    &&& forall|k: int| lo <= k < hi ==> !or_after(steps, k)
}

/// Whether every step from `lo` to `hi` (both included) passed.
pub open spec fn all_passed(steps: Seq<StepView>, lo: int, hi: int) -> bool {
    forall|k: int| lo <= k <= hi ==> (#[trigger] steps[k]).passed
}

/// The result of a chain: true without steps, else whether some segment has all its
/// steps passed.
pub open spec fn chain_passes(steps: Seq<StepView>) -> bool {
    steps.len() == 0 || exists|lo: int, hi: int|
        is_segment(steps, lo, hi) && all_passed(steps, lo, hi)
}

/// A chain of a single step has that step's outcome as its result.
pub proof fn lemma_single_step(steps: Seq<StepView>)
    requires
        steps.len() == 1,
    ensures
        chain_passes(steps) == steps[0].passed,
{
    assert(is_segment(steps, 0, 0));
}

/// A chain whose steps are joined by AND only (an absent connector counts as AND)
/// passes exactly when every step passed.
pub proof fn lemma_joined_by_and(steps: Seq<StepView>)
    requires
        forall|i: int| 0 <= i < steps.len() - 1 ==> !or_after(steps, i),
    ensures
        chain_passes(steps) == (forall|i: int| 0 <= i < steps.len() ==> (#[trigger] steps[i]).passed),
{
    if steps.len() > 0 {
        let last = steps.len() - 1;
        assert(is_segment(steps, 0, last));
        if chain_passes(steps) {
            let (lo, hi) = choose|lo: int, hi: int|
                is_segment(steps, lo, hi) && all_passed(steps, lo, hi);
            assert(lo == 0) by {
                if lo > 0 {
                    assert(or_after(steps, lo - 1));
                }
            }
            assert(hi == last);
        }
        if forall|i: int| 0 <= i < steps.len() ==> (#[trigger] steps[i]).passed {
            assert(all_passed(steps, 0, last));
        }
    }
}

/// A chain with at least one step, whose steps are joined by OR only, passes
/// exactly when some step passed.
pub proof fn lemma_joined_by_or(steps: Seq<StepView>)
    requires
        steps.len() > 0,
        forall|i: int| 0 <= i < steps.len() - 1 ==> or_after(steps, i),
    ensures
        chain_passes(steps) == (exists|i: int| 0 <= i < steps.len() && (#[trigger] steps[i]).passed),
{
    if chain_passes(steps) {
        let (lo, hi) = choose|lo: int, hi: int|
            is_segment(steps, lo, hi) && all_passed(steps, lo, hi);
        assert(steps[lo].passed);
    }
    if exists|i: int| 0 <= i < steps.len() && (#[trigger] steps[i]).passed {
        let i = choose|i: int| 0 <= i < steps.len() && (#[trigger] steps[i]).passed;
        assert(is_segment(steps, i, i));
        assert(all_passed(steps, i, i));
    }
}

/// Whether `run` holds exactly the indices from `lo` to `hi`, in order.
pub open spec fn is_run(run: Seq<usize>, lo: int, hi: int) -> bool {
    &&& run.len() == hi - lo + 1
    &&& forall|j: int| 0 <= j < run.len() ==> run[j] == lo + j
}

/// Whether some entry of `segments` spans the index `i`.
pub open spec fn is_listed(segments: Seq<Seq<usize>>, i: int) -> bool {
    exists|k: int|
        0 <= k < segments.len() && (#[trigger] segments[k]).first() <= i <= segments[k].last()
}

/// Whether `segments` is the division of `steps` into its segments: each entry is a
/// segment written out as its run of indices, each begins where the one before it
/// ended, and together they hold every index. No steps give no segments.
pub open spec fn is_segmentation(steps: Seq<StepView>, segments: Seq<Seq<usize>>) -> bool {
    &&& steps.len() == 0 <==> segments.len() == 0
    &&& forall|k: int|
        0 <= k < segments.len() ==> {
            &&& (#[trigger] segments[k]).len() > 0
            &&& is_run(segments[k], segments[k].first() as int, segments[k].last() as int)
            &&& is_segment(steps, segments[k].first() as int, segments[k].last() as int)
        }
    &&& forall|k: int|
        0 < k < segments.len() ==> (#[trigger] segments[k]).first() == segments[k - 1].last() + 1
    &&& forall|i: int| 0 <= i < steps.len() ==> #[trigger] is_listed(segments, i)
}

/// The index runs held by a list of vectors.
pub open spec fn runs(segments: Seq<Vec<usize>>) -> Seq<Seq<usize>> {
    Seq::new(segments.len(), |k: int| segments[k]@)
}

/// Every segment of a chain is one of the entries of its segmentation.
pub proof fn lemma_segment_is_listed(
    steps: Seq<StepView>,
    segments: Seq<Seq<usize>>,
    lo: int,
    hi: int,
) -> (k: int)
    requires
        is_segmentation(steps, segments),
        is_segment(steps, lo, hi),
    ensures
        0 <= k < segments.len(),
        segments[k].first() == lo,
        segments[k].last() == hi,
{
    assert(is_listed(segments, lo));
    let k = choose|k: int|
        0 <= k < segments.len() && (#[trigger] segments[k]).first() <= lo <= segments[k].last();
    let first = segments[k].first() as int;
    let last = segments[k].last() as int;
    assert(is_segment(steps, first, last));
    if first < lo {
        assert(or_after(steps, lo - 1));
        assert(!or_after(steps, lo - 1));
    }
    if hi < last {
        assert(or_after(steps, hi));
        assert(!or_after(steps, hi));
    }
    if last < hi {
        assert(or_after(steps, last));
        assert(!or_after(steps, last));
    }
    k
}

/// A chain passes exactly when one of the entries of its segmentation has all its
/// steps passed.
pub proof fn lemma_chain_passes_by_segments(steps: Seq<StepView>, segments: Seq<Seq<usize>>)
    requires
        is_segmentation(steps, segments),
    ensures
        chain_passes(steps) <==> (steps.len() == 0 || exists|k: int|
            0 <= k < segments.len() && all_passed(
                steps,
                (#[trigger] segments[k]).first() as int,
                segments[k].last() as int,
            )),
{
    if steps.len() > 0 {
        if chain_passes(steps) {
            let (lo, hi) = choose|lo: int, hi: int|
                is_segment(steps, lo, hi) && all_passed(steps, lo, hi);
            let k = lemma_segment_is_listed(steps, segments, lo, hi);
            assert(all_passed(steps, segments[k].first() as int, segments[k].last() as int));
        }
        if exists|k: int|
            0 <= k < segments.len() && all_passed(
                steps,
                (#[trigger] segments[k]).first() as int,
                segments[k].last() as int,
            ) {
            let k = choose|k: int|
                0 <= k < segments.len() && all_passed(
                    steps,
                    (#[trigger] segments[k]).first() as int,
                    segments[k].last() as int,
                );
            assert(is_segment(steps, segments[k].first() as int, segments[k].last() as int));
        }
    }
}


/// A complete assertion: the value under test and every step made on it so far.
#[derive(Debug)]
pub struct Assertion<T> {
    /// The value being tested.
    pub value: T,
    /// The expression that produced the value, as it was written.
    pub expr_str: &'static str,
    /// Whether the next step is to be negated.
    pub negated: bool,
    /// All steps of the chain, in the order in which they were made.
    pub steps: Vec<AssertionStep>,
    /// Whether a step has been added to this chain.
    pub in_chain: bool,
    /// Whether this chain is the one that reports, not a link to a later one.
    pub is_final: bool,
}

/// The mathematical content of an [`Assertion`], apart from the value under test.
pub struct ChainView {
    pub label: Seq<char>,
    pub negated: bool,
    pub steps: Seq<StepView>,
    pub in_chain: bool,
    pub is_final: bool,
}

impl<T> View for Assertion<T> {
    type V = ChainView;

    open spec fn view(&self) -> ChainView {
        ChainView {
            label: self.expr_str@,
            negated: self.negated,
            steps: step_views(self.steps@),
            in_chain: self.in_chain,
            is_final: self.is_final,
        }
    }
}

impl ChainView {
    /// The step that a matcher adds: the sentence takes the chain's label, without
    /// leading `&`, as its subject and the pending negation as its negation; the
    /// outcome is flipped exactly when a negation was pending.
    pub open spec fn new_step(self, sentence: SentenceView, result: bool) -> StepView {
        StepView {
            sentence: SentenceView {
                subject: skip_leading(self.label, '&'),
                negated: self.negated,
                ..sentence
            },
            passed: result != self.negated,
            logical_op: None,
        }
    }

    /// The chain after a matcher has added a step: the history is kept, the pending
    /// negation is used up, and the chain is final again.
    pub open spec fn add_step(self, sentence: SentenceView, result: bool) -> ChainView {
        ChainView {
            label: self.label,
            negated: false,
            steps: self.steps.push(self.new_step(sentence, result)),
            in_chain: true,
            is_final: true,
        }
    }

    /// Whether `next` is this chain after a matcher has added a step that says
    /// `verb` and `object` and found `result`.
    pub open spec fn adds(
        self,
        next: ChainView,
        verb: Seq<char>,
        object: Seq<char>,
        result: bool,
    ) -> bool {
        next == self.add_step(sentence_of(verb, object), result)
    }

    /// The chain with a negation pending for its next step.
    pub open spec fn negate(self) -> ChainView {
        ChainView { negated: true, ..self }
    }

    /// The chain with `op` as the connector behind its last step; a chain without
    /// steps is left as it is.
    pub open spec fn set_last_logic(self, op: LogicalOp) -> ChainView {
        if self.steps.len() == 0 {
            self
        } else {
            ChainView {
                steps: self.steps.update(
                    self.steps.len() - 1,
                    StepView { logical_op: Some(op), ..self.steps.last() },
                ),
                ..self
            }
        }
    }

    /// The chain marked as a link (`false`) or as the reporting chain (`true`).
    pub open spec fn mark(self, is_final: bool) -> ChainView {
        ChainView { is_final, ..self }
    }

    /// The result of the chain.
    pub open spec fn passes(self) -> bool {
        chain_passes(self.steps)
    }

    /// Whether a passing chain is reported: it has steps, and it is complete (no
    /// connector is open behind its last step) or holds more than one step.
    pub open spec fn reports_success(self) -> bool {
        self.steps.len() > 0 && (self.steps.last().logical_op is None || self.steps.len() > 1)
    }

    /// The event that a result gives rise to: a failure always, a success only
    /// where it is reported.
    pub open spec fn event(self, passed: bool) -> Option<EventView> {
        if passed {
            if self.reports_success() {
                Some(EventView::Success(self))
            } else {
                None
            }
        } else {
            Some(EventView::Failure(self))
        }
    }

    /// The message for a failure at `step`. Under a test the sentence is given in
    /// its raw form, behind "not" while a negation is pending; with enhanced output
    /// the raw sentence, which a label that holds "vec" precedes where the subject
    /// does not hold it; else the plain message that names the label.
    pub open spec fn error_message(self, step: StepView, context: ThreadContext) -> Seq<char> {
        if context.is_module_test || context.is_test {
            if self.negated {
                "not "@ + raw_text(step.sentence)
            } else {
                raw_text(step.sentence)
            }
        } else if context.use_enhanced_output {
            if has_infix(self.label, "vec"@) && !has_infix(step.sentence.subject, "vec"@) {
                self.label + " does not "@ + raw_text(step.sentence)
            } else {
                raw_text(step.sentence)
            }
        } else {
            "assertion failed: "@ + self.label
        }
    }

    /// The message with which a failed chain is raised: that of its first step, or
    /// the plain message where it has none.
    pub open spec fn failure_message(self, context: ThreadContext) -> Seq<char> {
        if self.steps.len() == 0 {
            "assertion failed: "@ + self.label
        } else {
            self.error_message(self.steps[0], context)
        }
    }

    /// What follows from a result: the event to emit, with enhanced output only,
    /// and the failure to raise, unless the caller asked for the result alone.
    pub open spec fn emission(self, passed: bool, context: ThreadContext) -> EvaluationView {
        EvaluationView {
            passed,
            event: if context.use_enhanced_output {
                self.event(passed)
            } else {
                None
            },
            failure: if !passed && !context.is_special_test {
                Some(self.failure_message(context))
            } else {
                None
            },
        }
    }

    /// The evaluation of the chain as it stands.
    pub open spec fn evaluation(self, context: ThreadContext) -> EvaluationView {
        self.emission(self.passes(), context)
    }

    /// Whether a chain that reaches the end of its life evaluates itself: it has
    /// steps, it is final, and no failure is already on its way.
    pub open spec fn evaluates_at_end(self, unwinding: bool) -> bool {
        self.steps.len() > 0 && self.is_final && !unwinding
    }
}

/// How failures are worded and whether events are emitted: chosen by the caller
/// for the thread of execution that evaluates.
#[derive(Debug, Clone, Copy, PartialEq, Eq, Structural)]
pub struct ThreadContext {
    /// The evaluation happens inside a test.
    pub is_test: bool,
    /// The evaluation happens inside a test of a module.
    pub is_module_test: bool,
    /// Events are emitted for reporting.
    pub use_enhanced_output: bool,
    /// The caller wants the result and no failure raised.
    pub is_special_test: bool,
}

/// What an evaluation decided: the result, the event to emit, if any, and the
/// message of the failure to raise, if any.
#[derive(Debug)]
pub struct Evaluation {
    pub passed: bool,
    pub event: Option<AssertionEvent>,
    pub failure: Option<String>,
}

/// The mathematical content of an [`Evaluation`].
pub struct EvaluationView {
    pub passed: bool,
    pub event: Option<EventView>,
    pub failure: Option<Seq<char>>,
}

impl View for Evaluation {
    type V = EvaluationView;

    open spec fn view(&self) -> EvaluationView {
        EvaluationView {
            passed: self.passed,
            event: match self.event {
                Some(event) => Some(event@),
                None => None,
            },
            failure: match self.failure {
                Some(message) => Some(message@),
                None => None,
            },
        }
    }
}

/// The mark that an evaluation is under way on the current thread of execution, so
/// that assertions made while it reports do not evaluate themselves in turn.
#[derive(Debug)]
pub struct EvaluationGuard {
    in_progress: bool,
}

impl EvaluationGuard {
    /// Whether an evaluation is under way.
    pub closed spec fn evaluating(&self) -> bool {
        self.in_progress
    }

    /// Creates the guard of a thread on which nothing is being evaluated.
    pub fn new() -> (guard: Self)
        ensures
            !guard.evaluating(),
    {
        EvaluationGuard { in_progress: false }
    }

    /// Tells whether an evaluation is under way.
    pub fn is_evaluating(&self) -> (evaluating: bool)
        ensures
            evaluating == self.evaluating(),
    {
        self.in_progress
    }

    /// Claims the guard; tells whether it was free.
    pub fn try_enter(&mut self) -> (entered: bool)
        ensures
            entered == !old(self).evaluating(),
            final(self).evaluating(),
    {
        if self.in_progress {
            false
        } else {
            self.in_progress = true;
            true
        }
    }

    /// Frees the guard when the evaluation and its reporting are over.
    pub fn leave(&mut self)
        ensures
            !final(self).evaluating(),
    {
        self.in_progress = false;
    }

    /// Ends the reporting of an evaluation: frees the guard and hands out the
    /// message of the failure to raise, if there is one. The failure is raised
    /// with the guard free, so that a chain that ends later on this thread
    /// evaluates itself again.
    pub fn conclude(&mut self, outcome: Evaluation) -> (failure: Option<String>)
        ensures
            !final(self).evaluating(),
            match failure {
                Some(message) => outcome@.failure == Some(message@),
                None => outcome@.failure is None,
            },
    {
        self.leave();
        outcome.failure
    }
}

/// A negation applies to exactly one step and is then used up: the step added
/// behind `negate` has the opposite of the matcher's outcome and a negated
/// sentence, no negation is pending behind it, and the step added next has the
/// matcher's own outcome.
pub proof fn lemma_negation_is_consumed(
    chain: ChainView,
    first: SentenceView,
    first_result: bool,
    second: SentenceView,
    second_result: bool,
)
    ensures
        chain.negate().add_step(first, first_result).steps.last().passed == !first_result,
        chain.negate().add_step(first, first_result).steps.last().sentence.negated,
        !chain.negate().add_step(first, first_result).negated,
        chain.negate().add_step(first, first_result).add_step(
            second,
            second_result,
        ).steps.last().passed == second_result,
        !chain.negate().add_step(first, first_result).add_step(
            second,
            second_result,
        ).steps.last().sentence.negated,
        chain.negate().add_step(first, first_result).steps.drop_last() == chain.steps,
{
    assert(chain.negate().add_step(first, first_result).steps.drop_last() =~= chain.steps);
}

impl<T: Clone> Clone for Assertion<T> {
    fn clone(&self) -> (copy: Self)
        ensures
            copy@ == self@,
            cloned(self.value, copy.value),
    {
        let steps = self.steps.clone();
        assert(step_views(steps@) =~= step_views(self.steps@));
        Assertion {
            value: self.value.clone(),
            expr_str: self.expr_str,
            negated: self.negated,
            steps,
            in_chain: self.in_chain,
            is_final: self.is_final,
        }
    }
}

/// Starts a chain on `value`, labelled with the expression that produced it.
pub fn expect<T>(value: T, expr_str: &'static str) -> (chain: Assertion<T>)
    ensures
        chain.value == value,
        chain@ == (ChainView {
            label: expr_str@,
            negated: false,
            steps: Seq::empty(),
            in_chain: false,
            is_final: true,
        }),
{
    Assertion::new(value, expr_str)
}

impl<T> Assertion<T> {
    /// Creates an assertion without steps; it is final and has no negation pending.
    pub fn new(value: T, expr_str: &'static str) -> (chain: Self)
        ensures
            chain.value == value,
            chain.expr_str == expr_str,
            chain@ == (ChainView {
                label: expr_str@,
                negated: false,
                steps: Seq::empty(),
                in_chain: false,
                is_final: true,
            }),
    {
        let chain = Assertion {
            value,
            expr_str,
            negated: false,
            steps: Vec::new(),
            in_chain: false,
            is_final: true,
        };
        assert(step_views(chain.steps@) =~= Seq::<StepView>::empty());
        chain
    }

    /// Adds a step and returns the next link of the chain, which carries the whole
    /// history; `self` is left as it was.
    pub fn add_step(&self, sentence: AssertionSentence, result: bool) -> (next: Self) where
        T: Clone,

        ensures
            next@ == self@.add_step(sentence@, result),
            next.expr_str == self.expr_str,
            cloned(self.value, next.value),
    {
        let mut described = sentence.with_negation(self.negated);
        described.subject = trim_leading(self.expr_str, '&');
        let passed = if self.negated {
            !result
        } else {
            result
        };
        let mut steps = self.steps.clone();
        assert(step_views(steps@) =~= step_views(self.steps@));
        let step = AssertionStep { sentence: described, passed, logical_op: None };
        assert(step@ == self@.new_step(sentence@, result));
        steps.push(step);
        assert(step_views(steps@) =~= self@.steps.push(step@));
        Assertion {
            value: self.value.clone(),
            expr_str: self.expr_str,
            negated: false,
            steps,
            in_chain: true,
            is_final: true,
        }
    }

    /// Adds a step to this chain in place of making a new link: the value under
    /// test is kept as it is.
    pub fn push_step(self, sentence: AssertionSentence, result: bool) -> (next: Self)
        ensures
            next@ == self@.add_step(sentence@, result),
            next.expr_str == self.expr_str,
            next.value == self.value,
    {
        let mut described = sentence.with_negation(self.negated);
        described.subject = trim_leading(self.expr_str, '&');
        let passed = if self.negated {
            !result
        } else {
            result
        };
        let mut next = self;
        let step = AssertionStep { sentence: described, passed, logical_op: None };
        next.steps.push(step);
        assert(step_views(next.steps@) =~= self@.steps.push(step@));
        next.negated = false;
        next.in_chain = true;
        next.is_final = true;
        next
    }

    /// Makes the next step count negated; only that one.
    pub fn negate(&mut self)
        ensures
            final(self)@ == old(self)@.negate(),
            final(self).value == old(self).value,
            final(self).expr_str == old(self).expr_str,
    {
        self.negated = true;
    }

    /// Sets the connector behind the last step.
    pub fn set_last_logic(&mut self, op: LogicalOp)
        ensures
            final(self)@ == old(self)@.set_last_logic(op),
            final(self).value == old(self).value,
            final(self).expr_str == old(self).expr_str,
    {
        let ghost before = step_views(self.steps@);
        match self.steps.pop() {
            Some(last) => {
                let mut last = last;
                last.logical_op = Some(op);
                self.steps.push(last);
                assert(step_views(self.steps@) =~= before.update(
                    before.len() - 1,
                    StepView { logical_op: Some(op), ..before.last() },
                ));
            },
            None => {
                assert(step_views(self.steps@) =~= before);
            },
        }
    }

    /// Marks this assertion as an intermediate link of a chain.
    pub fn mark_as_intermediate(&mut self)
        ensures
            final(self)@ == old(self)@.mark(false),
            final(self).value == old(self).value,
            final(self).expr_str == old(self).expr_str,
    {
        self.is_final = false;
    }

    /// Marks this assertion as the final link of a chain.
    pub fn mark_as_final(&mut self)
        ensures
            final(self)@ == old(self)@.mark(true),
            final(self).value == old(self).value,
            final(self).expr_str == old(self).expr_str,
    {
        self.is_final = true;
    }

    /// The fluent form of [`Assertion::negate`].
    pub fn not(self) -> (chain: Self)
        ensures
            chain@ == self@.negate(),
            chain.value == self.value,
            chain.expr_str == self.expr_str,
    {
        let mut chain = self;
        chain.negate();
        chain
    }

    /// Joins the next step to the last one with AND; the chain becomes a link.
    pub fn and(self) -> (chain: Self)
        ensures
            chain@ == self@.set_last_logic(LogicalOp::And).mark(false),
            chain.value == self.value,
            chain.expr_str == self.expr_str,
    {
        let mut chain = self;
        chain.set_last_logic(LogicalOp::And);
        chain.mark_as_intermediate();
        chain
    }

    /// Joins the next step to the last one with OR; the chain becomes a link.
    pub fn or(self) -> (chain: Self)
        ensures
            chain@ == self@.set_last_logic(LogicalOp::Or).mark(false),
            chain.value == self.value,
            chain.expr_str == self.expr_str,
    {
        let mut chain = self;
        chain.set_last_logic(LogicalOp::Or);
        chain.mark_as_intermediate();
        chain
    }

    /// Groups the steps into segments separated by OR connectors; each segment is
    /// given as the indices of its steps.
    pub fn group_steps_into_segments(&self) -> (segments: Vec<Vec<usize>>)
        ensures
            is_segmentation(self@.steps, runs(segments@)),
    {
        let ghost steps = self@.steps;
        let n: usize = self.steps.len();
        let mut segments: Vec<Vec<usize>> = Vec::new();
        if n == 0 {
            return segments;
        }
        let mut current: Vec<usize> = Vec::new();
        current.push(0);
        let mut i: usize = 1;
        while i < n
            invariant
                steps == self@.steps,
                n == self.steps.len(),
                1 <= i <= n,
                current@.len() > 0,
                is_run(current@, current@.first() as int, i - 1),
                current@.first() == 0 || or_after(steps, current@.first() - 1),
                forall|k: int| current@.first() <= k < i - 1 ==> !or_after(steps, k),
                forall|k: int|
                    0 <= k < segments.len() ==> {
                        &&& (#[trigger] runs(segments@)[k]).len() > 0
                        &&& is_run(
                            runs(segments@)[k],
                            runs(segments@)[k].first() as int,
                            runs(segments@)[k].last() as int,
                        )
                        &&& is_segment(
                            steps,
                            runs(segments@)[k].first() as int,
                            runs(segments@)[k].last() as int,
                        )
                    },
                forall|k: int|
                    0 < k < segments.len() ==> (#[trigger] runs(segments@)[k]).first() == runs(
                        segments@,
                    )[k - 1].last() + 1,
                segments.len() > 0 ==> runs(segments@).last().last() + 1 == current@.first(),
                segments.len() == 0 ==> current@.first() == 0,
                forall|j: int|
                    0 <= j < current@.first() ==> #[trigger] is_listed(runs(segments@), j),
            decreases n - i,
        {
            let or_before = match self.steps[i - 1].logical_op {
                Some(LogicalOp::Or) => true,
                _ => false,
            };
            assert(or_before == or_after(steps, i - 1));
            if or_before {
                let ghost before = runs(segments@);
                let ghost closed = current@;
                segments.push(current);
                current = Vec::new();
                current.push(i);
                proof {
                    let after = runs(segments@);
                    assert(after =~= before.push(closed));
                    assert(is_segment(steps, closed.first() as int, closed.last() as int));
                    assert forall|j: int| 0 <= j < i implies #[trigger] is_listed(after, j) by {
                        if j < closed.first() {
                            assert(is_listed(before, j));
                            let k = choose|k: int|
                                0 <= k < before.len() && (#[trigger] before[k]).first() <= j
                                    <= before[k].last();
                            assert(after[k] == before[k]);
                        } else {
                            assert(after[before.len() as int] == closed);
                        }
                    }
                }
            } else {
                current.push(i);
            }
            i += 1;
        }
        let ghost before = runs(segments@);
        let ghost closed = current@;
        segments.push(current);
        proof {
            let after = runs(segments@);
            assert(after =~= before.push(closed));
            assert(is_segment(steps, closed.first() as int, closed.last() as int));
            assert forall|j: int| 0 <= j < n implies #[trigger] is_listed(after, j) by {
                if j < closed.first() {
                    assert(is_listed(before, j));
                    let k = choose|k: int|
                        0 <= k < before.len() && (#[trigger] before[k]).first() <= j
                            <= before[k].last();
                    assert(after[k] == before[k]);
                } else {
                    assert(after[before.len() as int] == closed);
                }
            }
        }
        segments
    }

    /// Tells whether every step named in `segment` passed.
    fn segment_passes(&self, segment: &Vec<usize>) -> (passed: bool)
        requires
            segment@.len() > 0,
            is_run(segment@, segment@.first() as int, segment@.last() as int),
            segment@.last() < self.steps.len(),
        ensures
            passed == all_passed(self@.steps, segment@.first() as int, segment@.last() as int),
    {
        let ghost lo = segment@.first() as int;
        let mut passed = true;
        let mut j: usize = 0;
        while j < segment.len()
            invariant
                j <= segment.len(),
                segment@.len() > 0,
                lo == segment@.first(),
                is_run(segment@, lo, segment@.last() as int),
                segment@.last() < self.steps.len(),
                passed == all_passed(self@.steps, lo, lo + j - 1),
            decreases segment.len() - j,
        {
            let index: usize = segment[j];
            if !self.steps[index].passed {
                passed = false;
            }
            assert(self@.steps[lo + j].passed == self.steps[index as int].passed);
            j += 1;
        }
        passed
    }

    /// Calculates whether the entire chain passes.
    pub fn calculate_chain_result(&self) -> (passed: bool)
        ensures
            passed == chain_passes(self@.steps),
    {
        let ghost steps = self@.steps;
        if self.steps.len() == 0 {
            return true;
        }
        if self.steps.len() == 1 {
            assert(is_segment(steps, 0, 0));
            assert(steps[0].passed == self.steps[0].passed);
            return self.steps[0].passed;
        }
        if self.steps.len() == 2 {
            let first = &self.steps[0];
            let second = &self.steps[1];
            assert(steps[0] == first@ && steps[1] == second@);
            match first.logical_op {
                Some(LogicalOp::Or) => {
                    assert(is_segment(steps, 0, 0));
                    assert(is_segment(steps, 1, 1));
                    return first.passed || second.passed;
                },
                _ => {
                    assert(!or_after(steps, 0));
                    assert(is_segment(steps, 0, 1));
                    return first.passed && second.passed;
                },
            }
        }
        let segments = self.group_steps_into_segments();
        proof {
            lemma_chain_passes_by_segments(steps, runs(segments@));
        }
        let mut passed = false;
        let mut k: usize = 0;
        while k < segments.len()
            invariant
                steps == self@.steps,
                k <= segments.len(),
                is_segmentation(steps, runs(segments@)),
                passed == exists|m: int|
                    0 <= m < k && all_passed(
                        steps,
                        (#[trigger] runs(segments@)[m]).first() as int,
                        runs(segments@)[m].last() as int,
                    ),
            decreases segments.len() - k,
        {
            assert(runs(segments@)[k as int] == segments@[k as int]@);
            if self.segment_passes(&segments[k]) {
                passed = true;
            }
            k += 1;
        }
        passed
    }

    /// Copies the chain without its value, for reporting.
    pub fn erase(&self) -> (erased: Assertion<()>)
        ensures
            erased@ == self@,
            erased.expr_str == self.expr_str,
    {
        let steps = self.steps.clone();
        assert(step_views(steps@) =~= step_views(self.steps@));
        Assertion {
            value: (),
            expr_str: self.expr_str,
            negated: self.negated,
            steps,
            in_chain: self.in_chain,
            is_final: self.is_final,
        }
    }

    /// Picks the event that reports `passed`, if there is one.
    pub fn emit_assertion_events(&self, passed: bool, _context: &ThreadContext) -> (event: Option<
        AssertionEvent,
    >)
        ensures
            match event {
                Some(event) => self@.event(passed) == Some(event@),
                None => self@.event(passed) is None,
            },
    {
        let count: usize = self.steps.len();
        let reports_success = count > 0 && (self.steps[count - 1].logical_op.is_none() || count
            > 1);
        assert(count > 0 ==> self@.steps.last() == self.steps[count - 1]@);
        if passed && reports_success {
            Some(AssertionEvent::Success(self.erase()))
        } else if !passed {
            Some(AssertionEvent::Failure(self.erase()))
        } else {
            None
        }
    }

    /// Words the failure of `step` as the context asks.
    pub fn format_error_message(&self, step: &AssertionStep, context: &ThreadContext) -> (message:
        String)
        ensures
            message@ == self@.error_message(step@, *context),
    {
        if context.is_module_test || context.is_test {
            if self.negated {
                return String::from_str("not ").concat(step.sentence.format().as_str());
            } else {
                return step.sentence.format();
            }
        }
        if context.use_enhanced_output {
            if contains(self.expr_str, "vec") && !contains(step.sentence.subject.as_str(), "vec") {
                let mut message = String::from_str(self.expr_str);
                message.append(" does not ");
                message.append(step.sentence.format().as_str());
                return message;
            } else {
                return step.sentence.format();
            }
        }
        String::from_str("assertion failed: ").concat(self.expr_str)
    }

    /// Words the failure of the chain: the message with which it is to be raised.
    pub fn handle_assertion_failure(&self, context: &ThreadContext) -> (message: String)
        ensures
            message@ == self@.failure_message(*context),
    {
        if self.steps.len() == 0 {
            return String::from_str("assertion failed: ").concat(self.expr_str);
        }
        assert(self@.steps[0] == self.steps[0]@);
        self.format_error_message(&self.steps[0], context)
    }

    /// Decides what follows from the result `passed`: the event to emit and the
    /// failure to raise.
    pub fn emit_result(&self, passed: bool, context: &ThreadContext) -> (outcome: Evaluation)
        ensures
            outcome@ == self@.emission(passed, *context),
    {
        let event = if context.use_enhanced_output {
            self.emit_assertion_events(passed, context)
        } else {
            None
        };
        let failure = if !passed && !context.is_special_test {
            Some(self.handle_assertion_failure(context))
        } else {
            None
        };
        Evaluation { passed, event, failure }
    }

    /// Evaluates the chain, whether it is final or not, and uses it up.
    pub fn evaluate(self, context: &ThreadContext) -> (outcome: Evaluation)
        ensures
            outcome@ == self@.evaluation(*context),
    {
        let passed = self.calculate_chain_result();
        self.emit_result(passed, context)
    }

    /// Evaluates the chain at the end of its life, if it is the one to report and
    /// nothing is being evaluated on this thread; the chain is used up either way.
    /// Where it evaluates, the guard is held: the caller emits the event and then
    /// takes the failure to raise from [`EvaluationGuard::conclude`], which frees
    /// the guard.
    pub fn evaluate_at_end(
        self,
        guard: &mut EvaluationGuard,
        unwinding: bool,
        context: &ThreadContext,
    ) -> (outcome: Option<Evaluation>)
        ensures
            outcome is Some <==> self@.evaluates_at_end(unwinding) && !old(guard).evaluating(),
            match outcome {
                Some(outcome) => outcome@ == self@.evaluation(*context) && final(guard).evaluating(),
                None => final(guard).evaluating() == old(guard).evaluating(),
            },
    {
        if self.steps.len() == 0 || unwinding {
            return None;
        }
        if !self.is_final {
            return None;
        }
        if guard.try_enter() {
            let passed = self.calculate_chain_result();
            Some(self.emit_result(passed, context))
        } else {
            None
        }
    }
}

} // verus!
