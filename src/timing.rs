use vstd::prelude::*;

verus! {

/// Microseconds between two instruction cycles (about 700 Hz).
pub const CYCLE_TIME_US: u128 = 1429;

/// The lag between wall time and simulated cycles, which the host works off
/// one cycle at a time so that no cycle is skipped.
#[derive(Debug, Clone, Copy)]
pub struct CycleClock {
    pub lag_us: u128,
}

impl CycleClock {
    /// A clock with no lag.
    pub fn new() -> (r: CycleClock)
        ensures
            r.lag_us == 0,
    {
        CycleClock { lag_us: 0 }
    }

    /// Adds `elapsed_us` of wall time to the lag.
    pub fn add_elapsed(&mut self, elapsed_us: u64)
        requires
            old(self).lag_us + elapsed_us <= u128::MAX,
        ensures
            final(self).lag_us == old(self).lag_us + elapsed_us,
    {
        self.lag_us = self.lag_us + elapsed_us as u128;
    }

    /// Whether a cycle is due; if so, its time is taken off the lag.
    pub fn take_cycle(&mut self) -> (r: bool)
        ensures
            r == (old(self).lag_us >= CYCLE_TIME_US),
            final(self).lag_us == if r { old(self).lag_us - CYCLE_TIME_US } else { old(self).lag_us as int },
    {
        if self.lag_us >= CYCLE_TIME_US {
            self.lag_us = self.lag_us - CYCLE_TIME_US;
            true
        } else {
            false
        }
    }
}

/// Whether cycle number `cycle_idx` may run under a bound of `num_cycles`
/// cycles, where 0 means no bound.
pub fn cycle_allowed(cycle_idx: usize, num_cycles: usize) -> (r: bool)
    ensures
        r == (num_cycles == 0 || cycle_idx < num_cycles),
{
    cycle_idx < num_cycles || num_cycles == 0
}

} // verus!
