//! The periodic loop's decisions, as a state machine: the caller performs
//! the cycles, sleeps and process exit that it directs.
//!
//! One cycle runs synchronously at start. If that first cycle fails the
//! machine halts, directing a failure exit before any schedule begins. Once
//! the first cycle succeeds the machine is on the schedule for good: a
//! later cycle's failure is reported by the caller and the next tick still
//! runs, so a transient outage heals itself. There is no backoff and no
//! retry: a failed cycle waits for the next regular tick like any other.

use vstd::prelude::*;

verus! {

/// Where the loop stands.
#[derive(Debug, Clone, Copy, PartialEq, Eq)]
pub enum Phase {
    /// The first, synchronous cycle has not finished yet.
    FirstCycle,
    /// The first cycle succeeded; cycles now run on the fixed period.
    Scheduled,
    /// The first cycle failed; the process is to exit with a failure.
    Halted,
}

/// What the caller is to do next.
#[derive(Debug, Clone, Copy, PartialEq, Eq)]
pub enum Directive {
    /// Run one reconciliation cycle now.
    RunCycle,
    /// Nothing is due: sleep briefly and ask again.
    Sleep,
    /// Exit the process with a failure status.
    Exit,
}

/// When the next cycle falls due: one period after `now_secs`, pinned to
/// the top of the clock's range rather than wrapping.
pub open spec fn spec_next_due(now_secs: u64, period_secs: u64) -> u64 {
    if now_secs + period_secs <= u64::MAX {
        (now_secs + period_secs) as u64
    } else {
        u64::MAX
    }
}

/// The scheduling loop's state: its phase, the fixed period, and when the
/// next scheduled cycle falls due.
#[derive(Debug, Clone, Copy, PartialEq, Eq)]
pub struct Controller {
    pub phase: Phase,
    pub period_secs: u64,
    pub next_due: u64,
}

impl Controller {
    /// A fresh controller: the first cycle is owed at once, before any
    /// timer is consulted.
    pub fn new(period_secs: u64) -> (c: Controller)
        ensures
            c.phase is FirstCycle,
            c.period_secs == period_secs,
    {
        Controller { phase: Phase::FirstCycle, period_secs, next_due: 0 }
    }

    /// What to do at time `now_secs`: run the owed first cycle, run a
    /// scheduled cycle exactly when it is due, sleep until one is, or exit
    /// after a failed first cycle.
    pub fn directive(&self, now_secs: u64) -> (d: Directive)
        ensures
            self.phase is FirstCycle ==> d is RunCycle,
            self.phase is Halted ==> d is Exit,
            self.phase is Scheduled ==> (d is RunCycle <==> now_secs >= self.next_due),
            self.phase is Scheduled ==> (d is Sleep <==> now_secs < self.next_due),
    {
        match self.phase {
            Phase::FirstCycle => Directive::RunCycle,
            Phase::Halted => Directive::Exit,
            Phase::Scheduled => if now_secs >= self.next_due {
                Directive::RunCycle
            } else {
                Directive::Sleep
            },
        }
    }

    /// Takes note that a cycle finished at time `now_secs`. A failed first
    /// cycle halts the machine; any later result, success or failure,
    /// leaves the loop on its schedule, the next cycle one period away.
    pub fn cycle_finished(&mut self, now_secs: u64, succeeded: bool)
        ensures
            final(self).period_secs == old(self).period_secs,
            old(self).phase is FirstCycle && !succeeded ==> final(self).phase is Halted,
            old(self).phase is FirstCycle && succeeded ==> final(self).phase is Scheduled,
            old(self).phase is Scheduled ==> final(self).phase is Scheduled,
            old(self).phase is Halted ==> *final(self) == *old(self),
            final(self).phase is Scheduled ==> final(self).next_due == spec_next_due(
                now_secs,
                old(self).period_secs,
            ),
    {
        match self.phase {
            Phase::FirstCycle => {
                if succeeded {
                    self.phase = Phase::Scheduled;
                    self.next_due = Self::due_after(now_secs, self.period_secs);
                } else {
                    self.phase = Phase::Halted;
                }
            },
            Phase::Scheduled => {
                self.next_due = Self::due_after(now_secs, self.period_secs);
            },
            Phase::Halted => {},
        }
    }

    /// One period after `now_secs`, without wrapping.
    fn due_after(now_secs: u64, period_secs: u64) -> (due: u64)
        ensures
            due == spec_next_due(now_secs, period_secs),
    {
        if now_secs <= u64::MAX - period_secs {
            now_secs + period_secs
        } else {
            u64::MAX
        }
    }
}

} // verus!
