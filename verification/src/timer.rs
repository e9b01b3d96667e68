//! A stopwatch over a millisecond clock that the caller reads.
use vstd::prelude::*;

verus! {

/// Measures the time since it was started or last asked for an interval.
pub struct Timer {
    start: u32,
}

impl View for Timer {
    type V = u32;

    /// The clock reading from which the timer measures.
    closed spec fn view(&self) -> u32 {
        self.start
    }
}

impl Timer {
    /// A timer started at the clock reading `now`.
    pub fn start(now: u32) -> (timer: Timer)
        ensures
            timer@ == now,
    {
        Timer { start: now }
    }

    /// The clock reading from which the timer measures.
    pub fn started(&self) -> (at: u32)
        ensures
            at == self@,
    {
        self.start
    }

    /// Milliseconds from the timer's start to the clock reading `now`.
    pub fn get(&self, now: u32) -> (elapsed: u32)
        requires
            self@ <= now,
        ensures
            elapsed == now - self@,
    {
        now - self.start
    }

    /// Milliseconds from the timer's start to the clock reading `now`; the
    /// timer starts again at `now`.
    pub fn interval(&mut self, now: u32) -> (elapsed: u32)
        requires
            old(self)@ <= now,
        ensures
            elapsed == now - old(self)@,
            final(self)@ == now,
    {
        let time: u32 = now;
        let elapsed: u32 = time - self.start;
        self.start = time;
        elapsed
    }
}

} // verus!
