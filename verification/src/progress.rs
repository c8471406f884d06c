//! Background indexing progress.
//!
//! On workspace attach, one indexing subprocess is launched per registered
//! folder, detached from standard streams, and a progress channel reports a
//! heartbeat once per second: a monotonically increasing percentage capped
//! at 99, so the final jump to 100 is reserved for actual process exit.  The
//! percentage is a heartbeat, not an estimate — the underlying tool gives no
//! progress feedback.  The embedding program owns the spawning, sleeping and
//! polling; this state machine decides every emitted percentage and when the
//! loop must stop.

use vstd::prelude::*;

verus! {

/// Progress state of one folder's indexing run.
pub struct IndexingProgress {
    /// Heartbeats emitted so far.
    ticks: u32,
    /// Whether process exit has been observed.
    done: bool,
    /// Every heartbeat percentage emitted so far, in order.
    reports: Ghost<Seq<u32>>,
}

impl IndexingProgress {
    /// Heartbeats emitted so far.
    pub closed spec fn ticks(&self) -> u32 {
        self.ticks
    }

    /// Whether process exit has been observed.
    pub closed spec fn is_done(&self) -> bool {
        self.done
    }

    /// Every heartbeat percentage emitted so far, in order.
    pub closed spec fn reports(&self) -> Seq<u32> {
        self.reports@
    }

    /// The state is well formed: one report per tick, the k-th report reads
    /// `k + 1`, and nothing exceeds the 99 cap.
    pub open spec fn wf(&self) -> bool {
        &&& self.ticks() <= 99
        &&& self.reports().len() == self.ticks()
        &&& forall|k: int| 0 <= k < self.reports().len() ==> #[trigger] self.reports()[k] == k + 1
    }

    /// A fresh state machine, started when the begin notification for the
    /// folder is emitted.
    pub fn new() -> (p: Self)
        ensures
            p.wf(),
            p.ticks() == 0,
            !p.is_done(),
            p.reports() == Seq::<u32>::empty(),
    {
        IndexingProgress { ticks: 0, done: false, reports: Ghost(Seq::empty()) }
    }

    /// Whether another heartbeat may be emitted: the iteration budget is not
    /// exhausted and the process has not exited.
    pub fn may_beat(&self) -> (b: bool)
        ensures
            b == (self.ticks() < 99 && !self.is_done()),
    {
        self.ticks < 99 && !self.done
    }

    /// The percentage of the next heartbeat report.  Strictly above every
    /// percentage reported before, and capped at 99.
    pub fn heartbeat(&mut self) -> (pct: u32)
        requires
            old(self).wf(),
            old(self).ticks() < 99,
            !old(self).is_done(),
        ensures
            final(self).wf(),
            !final(self).is_done(),
            final(self).ticks() == old(self).ticks() + 1,
            pct == final(self).ticks(),
            1 <= pct <= 99,
            final(self).reports() == old(self).reports().push(pct),
    {
        self.ticks = self.ticks + 1;
        proof {
            self.reports@ = self.reports@.push(self.ticks);
        }
        self.ticks
    }

    /// Record that the indexing process has exited.
    pub fn observe_exit(&mut self)
        requires
            old(self).wf(),
        ensures
            final(self).wf(),
            final(self).is_done(),
            final(self).ticks() == old(self).ticks(),
            final(self).reports() == old(self).reports(),
    {
        self.done = true;
    }

    /// The percentage of the completion report, emitted once after the
    /// process exit was observed and directly before the end notification.
    pub fn completion_percentage(&self) -> (pct: u32)
        requires
            self.is_done(),
        ensures
            pct == 100,
    {
        100
    }
}

/// Heartbeat percentages increase strictly and never pass the 99 cap, so
/// 100 can only come from the completion report.
pub proof fn lemma_heartbeats_monotonic(p: IndexingProgress)
    requires
        p.wf(),
    ensures
        forall|i: int, j: int|
            0 <= i < j < p.reports().len() ==> #[trigger] p.reports()[i] < #[trigger] p.reports()[j],
        forall|i: int| 0 <= i < p.reports().len() ==> #[trigger] p.reports()[i] <= 99,
{
}

} // verus!
