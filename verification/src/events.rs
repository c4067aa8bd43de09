//! The events that an evaluated chain gives rise to, and the subscriptions that
//! decide which handlers an event reaches.

use crate::assertion::{Assertion, ChainView};
use vstd::prelude::*;

verus! {

/// The kinds of event that handlers subscribe to.
#[derive(Debug, Clone, Copy, PartialEq, Eq, Structural)]
pub enum EventKind {
    Success,
    Failure,
    SessionCompleted,
}

/// A notification about an evaluated chain or about the end of a session.
#[derive(Debug)]
pub enum AssertionEvent {
    /// A chain passed.
    Success(Assertion<()>),
    /// A chain failed.
    Failure(Assertion<()>),
    /// The session has been summarized.
    SessionCompleted,
}

/// The mathematical content of an [`AssertionEvent`].
pub enum EventView {
    Success(ChainView),
    Failure(ChainView),
    SessionCompleted,
}

impl View for AssertionEvent {
    type V = EventView;

    open spec fn view(&self) -> EventView {
        match self {
            AssertionEvent::Success(chain) => EventView::Success(chain@),
            AssertionEvent::Failure(chain) => EventView::Failure(chain@),
            AssertionEvent::SessionCompleted => EventView::SessionCompleted,
        }
    }
}

impl EventView {
    /// The kind under which handlers subscribe to this event.
    pub open spec fn kind(self) -> EventKind {
        match self {
            EventView::Success(_) => EventKind::Success,
            EventView::Failure(_) => EventKind::Failure,
            EventView::SessionCompleted => EventKind::SessionCompleted,
        }
    }
}

impl Clone for AssertionEvent {
    fn clone(&self) -> (copy: Self)
        ensures
            copy@ == self@,
    {
        match self {
            AssertionEvent::Success(chain) => AssertionEvent::Success(chain.clone()),
            AssertionEvent::Failure(chain) => AssertionEvent::Failure(chain.clone()),
            AssertionEvent::SessionCompleted => AssertionEvent::SessionCompleted,
        }
    }
}

impl AssertionEvent {
    /// The kind under which handlers subscribe to this event.
    pub fn kind(&self) -> (kind: EventKind)
        ensures
            kind == self@.kind(),
    {
        match self {
            AssertionEvent::Success(_) => EventKind::Success,
            AssertionEvent::Failure(_) => EventKind::Failure,
            AssertionEvent::SessionCompleted => EventKind::SessionCompleted,
        }
    }
}

/// The handlers subscribed to `kind`, in the order in which they registered. A
/// handler is known by its place in the registration order.
pub open spec fn subscribers(subscriptions: Seq<EventKind>, kind: EventKind) -> Seq<usize>
    decreases subscriptions.len(),
{
    if subscriptions.len() == 0 {
        Seq::empty()
    } else if subscriptions.last() == kind {
        subscribers(subscriptions.drop_last(), kind).push((subscriptions.len() - 1) as usize)
    } else {
        subscribers(subscriptions.drop_last(), kind)
    }
}

/// An event reaches every handler subscribed to its kind and no other, each once
/// and in registration order. The subscriptions are as many as an emitter can hold.
pub proof fn lemma_subscribers(subscriptions: Seq<EventKind>, kind: EventKind)
    requires
        subscriptions.len() <= usize::MAX,
    ensures
        forall|handler: usize| #[trigger]
            subscribers(subscriptions, kind).contains(handler) <==> handler < subscriptions.len()
                && subscriptions[handler as int] == kind,
        forall|i: int, j: int|
            0 <= i < j < subscribers(subscriptions, kind).len() ==> subscribers(
                subscriptions,
                kind,
            )[i] < subscribers(subscriptions, kind)[j],
    decreases subscriptions.len(),
{
    let listed = subscribers(subscriptions, kind);
    if subscriptions.len() > 0 {
        let front = subscriptions.drop_last();
        let before = subscribers(front, kind);
        let last = (subscriptions.len() - 1) as usize;
        lemma_subscribers(front, kind);
        assert forall|handler: usize| #[trigger]
            listed.contains(handler) <==> handler < subscriptions.len()
                && subscriptions[handler as int] == kind by {
            if listed.contains(handler) {
                let at = choose|at: int| 0 <= at < listed.len() && listed[at] == handler;
                if at < before.len() {
                    assert(before[at] == handler);
                    assert(before.contains(handler));
                }
            }
            if handler < subscriptions.len() && subscriptions[handler as int] == kind {
                if handler == last {
                    assert(listed[before.len() as int] == handler);
                } else {
                    assert(front[handler as int] == kind);
                    assert(before.contains(handler));
                    let at = choose|at: int| 0 <= at < before.len() && before[at] == handler;
                    assert(listed[at] == handler);
                }
            }
        }
        assert(listed == if subscriptions.last() == kind {
            before.push(last)
        } else {
            before
        });
        assert forall|i: int, j: int| 0 <= i < j < listed.len() implies listed[i] < listed[j] by {
            assert(listed[i] == before[i]);
            if j < before.len() {
                assert(listed[j] == before[j]);
                assert(before[i] < before[j]);
            } else {
                assert(before.contains(before[i]));
                assert(before[i] < front.len());
                assert(listed[j] == last);
            }
        }
    }
}

/// The subscriptions of a process: which handler wants which kind of event. The
/// handlers themselves stay with the caller, who runs those that `emit` names.
#[derive(Debug)]
pub struct EventEmitter {
    subscriptions: Vec<EventKind>,
}

impl View for EventEmitter {
    type V = Seq<EventKind>;

    closed spec fn view(&self) -> Seq<EventKind> {
        self.subscriptions@
    }
}

impl EventEmitter {
    /// Creates an emitter without subscriptions.
    pub fn new() -> (emitter: Self)
        ensures
            emitter@ == Seq::<EventKind>::empty(),
    {
        EventEmitter { subscriptions: Vec::new() }
    }

    /// Registers a handler for `kind` and returns the number that names it.
    pub fn subscribe(&mut self, kind: EventKind) -> (handler: usize)
        ensures
            final(self)@ == old(self)@.push(kind),
            handler == old(self)@.len(),
    {
        let handler: usize = self.subscriptions.len();
        self.subscriptions.push(kind);
        handler
    }

    /// Registers a handler for successes.
    pub fn on_success(&mut self) -> (handler: usize)
        ensures
            final(self)@ == old(self)@.push(EventKind::Success),
            handler == old(self)@.len(),
    {
        self.subscribe(EventKind::Success)
    }

    /// Registers a handler for failures.
    pub fn on_failure(&mut self) -> (handler: usize)
        ensures
            final(self)@ == old(self)@.push(EventKind::Failure),
            handler == old(self)@.len(),
    {
        self.subscribe(EventKind::Failure)
    }

    /// Registers a handler for the end of a session.
    pub fn on_session_completed(&mut self) -> (handler: usize)
        ensures
            final(self)@ == old(self)@.push(EventKind::SessionCompleted),
            handler == old(self)@.len(),
    {
        self.subscribe(EventKind::SessionCompleted)
    }

    /// Names the handlers that `event` is to be handed to, in registration order.
    pub fn emit(&self, event: &AssertionEvent) -> (handlers: Vec<usize>)
        ensures
            handlers@ == subscribers(self@, event@.kind()),
    {
        let kind = event.kind();
        let mut handlers: Vec<usize> = Vec::new();
        let mut i: usize = 0;
        assert(self@.take(0) =~= Seq::<EventKind>::empty());
        while i < self.subscriptions.len()
            invariant
                i <= self.subscriptions.len(),
                kind == event@.kind(),
                handlers@ == subscribers(self@.take(i as int), kind),
            decreases self.subscriptions.len() - i,
        {
            assert(self@.take(i + 1).drop_last() =~= self@.take(i as int));
            if self.subscriptions[i] == kind {
                handlers.push(i);
            }
            i += 1;
        }
        assert(self@.take(i as int) =~= self@);
        handlers
    }
}

} // verus!
