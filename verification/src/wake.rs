//! Wake scheduler: at most one pending deadline, merged to the earliest.
//!
//! Components that need a future redraw (clocks, polling widgets) call
//! [`WakeState::set_wake_at`]; the surrounding runtime runs one task that
//! perpetually races "the pending deadline elapses" against "a new,
//! earlier deadline was registered" and calls [`WakeState::fire`] when the
//! deadline actually elapses. Deadlines are milliseconds on a monotonic
//! clock owned by that runtime.

use vstd::prelude::*;

verus! {

/// The single pending deadline plus the signal that re-arms the waiting
/// task. Invariant of use: the stored deadline, if present, is always the
/// earliest outstanding request; merging a later request is a no-op.
pub struct WakeState {
    /// The earliest outstanding deadline, if any request is pending.
    pub deadline: Option<u64>,
    /// True while the waiting task has an unconsumed re-arm signal (a new
    /// deadline was stored since the task last looked).
    pub signaled: bool,
}

/// What the waiting task should do next: sleep until the pending deadline,
/// or suspend until some deadline is registered.
pub enum WakePoll {
    SleepUntil(u64),
    WaitForRegistration,
}

/// The deadline that results from one `set_wake_at` request.
pub open spec fn spec_merge(cur: Option<u64>, wake: u64) -> Option<u64> {
    match cur {
        Some(t) => if t < wake {
            Some(t)
        } else {
            Some(wake)
        },
        None => Some(wake),
    }
}

/// The deadline after replaying a sequence of requests on a state with no
/// pending deadline.
pub open spec fn spec_replay(reqs: Seq<u64>) -> Option<u64>
    decreases reqs.len(),
{
    if reqs.len() == 0 {
        None
    } else {
        spec_merge(spec_replay(reqs.drop_last()), reqs.last())
    }
}

/// The least element of a non-empty sequence of deadlines.
pub open spec fn seq_min(reqs: Seq<u64>) -> u64
    recommends
        reqs.len() > 0,
    decreases reqs.len(),
{
    if reqs.len() <= 1 {
        reqs.last()
    } else if seq_min(reqs.drop_last()) < reqs.last() {
        seq_min(reqs.drop_last())
    } else {
        reqs.last()
    }
}

impl WakeState {
    /// A scheduler with nothing pending: the waiting task suspends until a
    /// deadline is registered.
    pub fn new() -> (r: WakeState)
        ensures
            r.deadline is None,
            !r.signaled,
    {
        WakeState { deadline: None, signaled: false }
    }

    /// Record a request to fire no later than `wake`. If an earlier request
    /// is already pending this call has no effect at all; otherwise `wake`
    /// becomes the pending deadline and the waiting task is re-armed.
    pub fn set_wake_at(&mut self, wake: u64)
        ensures
            final(self).deadline == spec_merge(old(self).deadline, wake),
            match old(self).deadline {
                Some(t) => if t < wake {
                    *final(self) == *old(self)
                } else {
                    final(self).signaled
                },
                None => final(self).signaled,
            },
    {
        match self.deadline {
            Some(t) if t < wake => {
                return ;
            },
            _ => {},
        }
        self.deadline = Some(wake);
        self.signaled = true;
    }

    /// What the waiting task should wait on, given the current state.
    pub fn poll(&self) -> (r: WakePoll)
        ensures
            match self.deadline {
                Some(d) => r == WakePoll::SleepUntil(d),
                None => r == WakePoll::WaitForRegistration,
            },
    {
        match self.deadline {
            Some(d) => WakePoll::SleepUntil(d),
            None => WakePoll::WaitForRegistration,
        }
    }

    /// Consume the re-arm signal; the waiting task does this when its race
    /// is won by "a new deadline was registered", before polling again.
    pub fn take_signal(&mut self) -> (was: bool)
        ensures
            was == old(self).signaled,
            !final(self).signaled,
            final(self).deadline == old(self).deadline,
    {
        let was = self.signaled;
        self.signaled = false;
        was
    }

    /// The pending deadline elapsed: clear it and tell the caller to emit
    /// exactly one redraw notification. `now` is the task's clock when the
    /// sleep completed, so the scheduler never fires before the pending
    /// (hence earliest) deadline.
    pub fn fire(&mut self, now: u64) -> (redraw: bool)
        requires
            old(self).deadline matches Some(d) && d <= now,
        ensures
            final(self).deadline is None,
            final(self).signaled == old(self).signaled,
            redraw,
    {
        self.deadline = None;
        true
    }
}

/// Law: earliest wins. After any sequence of wake requests on an idle
/// scheduler, the pending deadline is exactly the earliest requested one
/// (and absent only when nothing was requested). Together with the
/// precondition of [`WakeState::fire`] this says the scheduler fires no
/// earlier than the single earliest deadline currently registered, and
/// that registering a later deadline while an earlier one is pending has
/// no observable effect.
pub proof fn lemma_earliest_wins(reqs: Seq<u64>)
    ensures
        reqs.len() == 0 ==> spec_replay(reqs) is None,
        reqs.len() > 0 ==> spec_replay(reqs) == Some(seq_min(reqs)),
    decreases reqs.len(),
{
    if reqs.len() > 0 {
        lemma_earliest_wins(reqs.drop_last());
    }
}

} // verus!
