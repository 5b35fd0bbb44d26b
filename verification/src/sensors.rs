//! Tick bookkeeping for a wheel's encoder.
//!
//! A wheel estimator turns cumulative encoder counts into angular position
//! and velocity. The angular conversions are floating point and live with
//! the caller; what is kept and checked here is the integer bookkeeping the
//! estimator rests on: the resolution constant and the last count seen,
//! which every update compares against and then replaces.

use vstd::prelude::*;

verus! {

/// The integer state of one wheel's estimator: the encoder resolution and
/// the last cumulative tick count taken in.
pub struct WheelTicks {
    /// The number of ticks per revolution of the wheel.
    ticks_per_revolution: u64,
    /// The last ticks count from the encoder.
    last_ticks_count: i64,
}

impl WheelTicks {
    /// The encoder resolution this wheel was created with.
    pub closed spec fn ticks_per_rev(&self) -> u64 {
        self.ticks_per_revolution
    }

    /// The last cumulative count this wheel has taken in.
    pub closed spec fn last(&self) -> i64 {
        self.last_ticks_count
    }

    /// Creates the bookkeeping for a wheel with the given resolution; the
    /// count starts at zero, so the first update measures against zero.
    pub fn new(ticks_per_revolution: u64) -> (w: Self)
        ensures
            w.ticks_per_rev() == ticks_per_revolution,
            w.last() == 0,
    {
        WheelTicks { ticks_per_revolution, last_ticks_count: 0 }
    }

    /// The number of ticks per revolution of the wheel.
    pub fn ticks_per_revolution(&self) -> (t: u64)
        ensures
            t == self.ticks_per_rev(),
    {
        self.ticks_per_revolution
    }

    /// The last cumulative count this wheel has taken in.
    pub fn last_ticks_count(&self) -> (t: i64)
        ensures
            t == self.last(),
    {
        self.last_ticks_count
    }

    /// Takes in a new cumulative count: returns how far the encoder moved
    /// since the last update and remembers the new count for the next one.
    pub fn advance(&mut self, ticks: i64) -> (delta: i64)
        requires
            i64::MIN <= ticks - old(self).last() <= i64::MAX,
        ensures
            delta == ticks - old(self).last(),
            final(self).last() == ticks,
            final(self).ticks_per_rev() == old(self).ticks_per_rev(),
    {
        let delta = ticks - self.last_ticks_count;
        self.last_ticks_count = ticks;
        delta
    }
}

} // verus!
