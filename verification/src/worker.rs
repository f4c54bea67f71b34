//! One worker's bounded search loop, as an explicit state machine.
//!
//! A worker owns the slice `[start, start + width)` of the candidate
//! domain and walks it one counter at a time. Each iteration has two
//! halves: `poll` asks which counter to compute a digest for — checking
//! the shared cancellation signal first, and halting without a request
//! when the signal is set or the slice is exhausted — and `record` takes
//! the verdict on that digest, halting on a match and advancing otherwise.
//! The digest computation itself happens between the two calls, outside
//! this state machine.

use vstd::prelude::*;

verus! {

/// A worker's complete state: its slice, its position in it, and whether
/// it has stopped (by cancellation, exhaustion, or its own match).
#[derive(Clone, Copy, Debug, PartialEq, Eq, Structural)]
pub struct WorkerState {
    /// First counter of the worker's slice.
    pub start: u128,
    /// Number of counters in the slice.
    pub width: u128,
    /// Next counter to try; counters below it have all been tried.
    pub next: u128,
    /// Whether the worker has stopped for good.
    pub halted: bool,
}

impl WorkerState {
    /// First counter past the worker's slice.
    pub open spec fn end(self) -> int {
        self.start + self.width
    }

    /// Well-formed: the slice fits the counter type and the position is
    /// inside it.
    pub open spec fn wf(self) -> bool {
        &&& self.start + self.width <= u128::MAX
        &&& self.start <= self.next <= self.end()
    }

    /// The worker has tried every counter of its slice.
    pub open spec fn exhausted(self) -> bool {
        self.next == self.end()
    }

    /// How many digest computations this worker has caused.
    pub open spec fn tried(self) -> int {
        self.next - self.start
    }

    /// A fresh worker at the bottom of its slice.
    pub fn new(start: u128, width: u128) -> (w: WorkerState)
        requires
            start + width <= u128::MAX,
        ensures
            w == (WorkerState { start, width, next: start, halted: false }),
            w.wf(),
            w.tried() == 0,
    {
        WorkerState { start, width, next: start, halted: false }
    }

    /// Top of the loop: the counter to compute a digest for next, or
    /// `None` — and a halt — when cancelled, already halted, or exhausted.
    pub fn poll(&mut self, cancelled: bool) -> (r: Option<u128>)
        requires
            old(self).wf(),
        ensures
            final(self).wf(),
            (*final(self), r) == poll_step(*old(self), cancelled),
            final(self).next == old(self).next,
            final(self).start == old(self).start,
            final(self).width == old(self).width,
            r is None <==> final(self).halted,
            r matches Some(c) ==> c == old(self).next && !cancelled && !old(self).halted
                && old(self).next < old(self).end(),
    {
        if cancelled || self.halted {
            self.halted = true;
            None
        } else if self.next == self.start + self.width {
            self.halted = true;
            None
        } else {
            Some(self.next)
        }
    }

    /// Bottom of the loop: the verdict on the digest for the counter that
    /// `poll` handed out. A match halts the worker with the winning
    /// counter still in `next`; otherwise the worker advances.
    pub fn record(&mut self, matched: bool)
        requires
            old(self).wf(),
            !old(self).halted,
            old(self).next < old(self).end(),
        ensures
            final(self).wf(),
            *final(self) == record_step(*old(self), matched),
            final(self).start == old(self).start,
            final(self).width == old(self).width,
            matched ==> final(self).halted && final(self).next == old(self).next,
            !matched ==> !final(self).halted && final(self).next == old(self).next + 1,
    {
        if matched {
            self.halted = true;
        } else {
            self.next = self.next + 1;
        }
    }
}

/// What `poll` does, as a pure function of the state and the signal.
pub open spec fn poll_step(w: WorkerState, cancelled: bool) -> (WorkerState, Option<u128>) {
    if cancelled || w.halted {
        (WorkerState { halted: true, ..w }, None)
    } else if w.exhausted() {
        (WorkerState { halted: true, ..w }, None)
    } else {
        (w, Some(w.next))
    }
}

/// What `record` does, as a pure function of the state and the verdict.
pub open spec fn record_step(w: WorkerState, matched: bool) -> WorkerState {
    if matched {
        WorkerState { halted: true, ..w }
    } else {
        WorkerState { next: (w.next + 1) as u128, ..w }
    }
}

/// Cancellation propagation: once the shared signal is set, a worker's
/// very next poll issues no digest request and performs no work — so a
/// worker that was mid-iteration when the signal went up completes at
/// most that one digest computation before stopping.
pub proof fn lemma_cancelled_worker_requests_nothing(w: WorkerState)
    ensures
        poll_step(w, true).1 is None,
        poll_step(w, true).0.halted,
        poll_step(w, true).0.tried() == w.tried(),
{
}

/// A halted worker is halted for good: every further step leaves its
/// state unchanged and requests nothing.
pub proof fn lemma_halted_worker_stays_halted(w: WorkerState, cancelled: bool)
    requires
        w.halted,
    ensures
        poll_step(w, cancelled).0 == w,
        poll_step(w, cancelled).1 is None,
{
}

} // verus!
