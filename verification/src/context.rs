//! The bookkeeping behind cancellable contexts: counting live contexts,
//! deciding when a shutdown may finish, and what a future run under a
//! context yields.
use vstd::prelude::*;

verus! {

/// The state of a handler's contexts as the contracts see it.
pub struct TrackerView {
    /// Whether the handler has been stopped.
    pub stopped: bool,
    /// How many contexts of the handler are alive.
    pub active: nat,
}

/// Whether a handler has been stopped and how many of its contexts are
/// alive.
#[derive(Debug)]
pub struct TrackerState {
    stopped: bool,
    active: usize,
}

impl View for TrackerState {
    type V = TrackerView;

    closed spec fn view(&self) -> TrackerView {
        TrackerView { stopped: self.stopped, active: self.active as nat }
    }
}

impl TrackerState {
    /// A running handler with no contexts.
    pub fn new() -> (t: TrackerState)
        ensures
            t@ == (TrackerView { stopped: false, active: 0 }),
    {
        TrackerState { stopped: false, active: 0 }
    }

    /// Counts a new context.
    pub fn child(&mut self)
        requires
            old(self)@.active < usize::MAX,
        ensures
            final(self)@ == (TrackerView { active: old(self)@.active + 1, ..old(self)@ }),
    {
        self.active = self.active + 1;
    }

    /// Counts a context that went away. Returns whether the waiters must be
    /// woken: the last context went away after the handler was stopped.
    pub fn release(&mut self) -> (notify: bool)
        requires
            old(self)@.active > 0,
        ensures
            final(self)@ == (TrackerView { active: (old(self)@.active - 1) as nat, ..old(self)@ }),
            notify == (old(self)@.active == 1 && old(self)@.stopped),
    {
        let previous = self.active;
        self.active = self.active - 1;
        previous == 1 && self.stopped
    }

    /// Marks the handler as stopped.
    pub fn stop(&mut self)
        ensures
            final(self)@ == (TrackerView { stopped: true, ..old(self)@ }),
    {
        self.stopped = true;
    }

    /// How many contexts are alive.
    pub fn active(&self) -> (n: usize)
        ensures
            n == self@.active,
    {
        self.active
    }

    /// Whether a shutdown has to wait: some context is still alive.
    pub fn must_wait(&self) -> (b: bool)
        ensures
            b == (self@.active != 0),
    {
        self.active != 0
    }
}

/// What polling a future run under a context gives: `None` while neither
/// is ready; the future's output as soon as it is ready, even when the
/// context is done too; and `Some(None)`, cancelled, when only the context
/// is done.
pub fn poll_outcome<T>(context_done: bool, output: Option<T>) -> (r: Option<Option<T>>)
    ensures
        output is Some ==> r == Some(output),
        output is None && context_done ==> r == Some(None::<T>),
        output is None && !context_done ==> r is None,
{
    match output {
        Some(v) => Some(Some(v)),
        None => if context_done {
            Some(None)
        } else {
            None
        },
    }
}

/// How many times the waiters are woken when `k` of `active` live contexts
/// are released one by one, each release waking them as
/// [`TrackerState::release`] says.
pub open spec fn wakeups(stopped: bool, active: nat, k: nat) -> nat
    decreases k,
{
    if k == 0 || active == 0 {
        0
    } else {
        (if active == 1 && stopped { 1nat } else { 0nat }) + wakeups(stopped, (active - 1) as nat, (k - 1) as nat)
    }
}

/// Releasing every live context of a stopped handler wakes the waiters
/// exactly once; releasing fewer, or releasing under a running handler,
/// wakes them never.
pub proof fn lemma_last_release_notifies(stopped: bool, active: nat, k: nat)
    requires
        k <= active,
    ensures
        wakeups(stopped, active, k) == if stopped && k == active && active > 0 { 1nat } else { 0nat },
    decreases k,
{
    if k > 0 {
        lemma_last_release_notifies(stopped, (active - 1) as nat, (k - 1) as nat);
    }
}

} // verus!
