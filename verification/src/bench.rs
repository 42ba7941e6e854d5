//! Bookkeeping of the micro-benchmarks that time CR3 switches and PKRU writes.

use vstd::prelude::*;

verus! {

/// A benchmark that calls a function repeatedly until `duration`
/// nanoseconds have passed since `start`, counting the calls. The elapsed
/// time is sampled before each call, so the call that crosses the deadline
/// is still made and counted.
pub struct TimeBench {
    pub start: u64,
    pub duration: u64,
    pub elapsed: u64,
    pub counter: u64,
}

impl TimeBench {
    pub fn new(start: u64, duration: u64) -> (b: Self)
        ensures
            b.start == start && b.duration == duration && b.elapsed == 0 && b.counter == 0,
    {
        TimeBench { start, duration, elapsed: 0, counter: 0 }
    }

    /// Whether another call is due.
    pub fn running(&self) -> (r: bool)
        ensures
            r == (self.elapsed < self.duration),
    {
        self.elapsed < self.duration
    }

    /// Records one call made at time `now`.
    pub fn record_call(&mut self, now: u64)
        requires
            now >= old(self).start,
            old(self).counter < u64::MAX,
        ensures
            final(self).elapsed == now - old(self).start,
            final(self).counter == old(self).counter + 1,
            final(self).start == old(self).start,
            final(self).duration == old(self).duration,
    {
        self.elapsed = now - self.start;
        self.counter = self.counter + 1;
    }
}

/// Time taken by a fixed number of calls, from the clock readings around them.
pub fn counter_based_elapsed(start: u64, end: u64) -> (r: u64)
    requires
        end >= start,
    ensures
        r == end - start,
{
    end - start
}

/// Average time of one call.
pub fn ns_per_call(total: u64, calls: u64) -> (r: u64)
    requires
        calls > 0,
    ensures
        r == total / calls,
{
    total / calls
}

} // verus!
