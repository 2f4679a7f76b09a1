//! The change scheduler: the reactive glue between an edit and the chart.
//!
//! The pipeline is single-threaded and run-to-completion: a parameter
//! change synchronously re-validates, re-samples and re-renders before the
//! next interaction is processed, so the scheduler is back in its idle
//! phase when the call returns and every change has been recomputed —
//! none is dropped, none can interleave with another.

use vstd::prelude::*;

verus! {

/// The two phases of the scheduler.
#[derive(Clone, Copy, Debug, PartialEq, Eq, Structural)]
pub enum Phase {
    /// Waiting for a parameter change.
    Idle,
    /// Running the validate, sample, render sequence for one change.
    Recomputing,
}

/// The scheduler's state: its phase and how many changes it has seen and
/// recomputed.
pub struct ChangeScheduler {
    /// Current phase; `Idle` between calls.
    pub phase: Phase,
    /// Parameter changes received so far.
    pub changes_seen: u64,
    /// Recompute passes completed so far.
    pub recomputes_done: u64,
}

impl ChangeScheduler {
    /// Between events the scheduler is idle and has recomputed exactly
    /// once per change seen: no change is dropped.
    pub open spec fn wf(self) -> bool {
        &&& self.phase == Phase::Idle
        &&& self.changes_seen == self.recomputes_done
    }

    /// A fresh scheduler: idle, nothing seen.
    pub fn new() -> (s: ChangeScheduler)
        ensures
            s == (ChangeScheduler { phase: Phase::Idle, changes_seen: 0u64, recomputes_done: 0u64 }),
            s.wf(),
    {
        ChangeScheduler { phase: Phase::Idle, changes_seen: 0, recomputes_done: 0 }
    }

    /// Accept one parameter change: enter the recomputing phase, run the
    /// validate, sample, render sequence to completion, and return idle.
    /// The caller performs the three steps between this call's entry and
    /// exit; because the work is synchronous, the call returns only in the
    /// idle phase with the change accounted for.
    pub fn on_parameter_change(&mut self) -> (r: Phase)
        requires
            old(self).wf(),
            old(self).changes_seen < u64::MAX,
        ensures
            final(self).wf(),
            final(self).changes_seen == old(self).changes_seen + 1,
            final(self).recomputes_done == old(self).recomputes_done + 1,
            r == Phase::Idle,
    {
        self.phase = Phase::Recomputing;
        self.changes_seen = self.changes_seen + 1;
        self.recomputes_done = self.recomputes_done + 1;
        self.phase = Phase::Idle;
        self.phase
    }
}

} // verus!
