//! A repeating interval timer over whole milliseconds.
use vstd::prelude::*;

verus! {

/// Fires once its period has elapsed, then starts over with what time is left over.
#[derive(Clone, Copy, Debug, PartialEq, Eq, Structural)]
pub struct RepeatingTimer {
    pub period_ms: u32,
    pub elapsed_ms: u32,
}

impl RepeatingTimer {
    pub open spec fn wf(self) -> bool {
        0 < self.period_ms && self.elapsed_ms < self.period_ms
    }

    /// A timer with the given period that has just started.
    pub fn new(period_ms: u32) -> (r: RepeatingTimer)
        requires
            period_ms > 0,
        ensures
            r.period_ms == period_ms,
            r.elapsed_ms == 0,
            r.wf(),
    {
        RepeatingTimer { period_ms, elapsed_ms: 0 }
    }

    /// Advances by `dt` milliseconds; returns whether the period ran out during them.
    pub fn tick(&mut self, dt: u32) -> (fired: bool)
        requires
            old(self).wf(),
        ensures
            fired == (old(self).elapsed_ms + dt >= old(self).period_ms),
            final(self).elapsed_ms == (old(self).elapsed_ms + dt) % (old(self).period_ms as int),
            final(self).period_ms == old(self).period_ms,
            final(self).wf(),
    {
        let total: u64 = self.elapsed_ms as u64 + dt as u64;
        let rest: u64 = total % (self.period_ms as u64);
        self.elapsed_ms = rest as u32;
        total >= self.period_ms as u64
    }
}

} // verus!
