use vstd::prelude::*;

verus! {

/// A monotonically incrementing tick source that is expected to roll over.
///
/// It should tick at least once per few thousand messages, and not so fast
/// that it rolls over every few messages.
pub trait RollingTimer {
    /// The current unitless tick.
    fn get_current_tick(&self) -> u32;
}

/// A tick counter advanced by the real-time clock interrupt.
pub struct RollingRtcTimer {
    time: u32,
}

impl View for RollingRtcTimer {
    type V = u32;

    closed spec fn view(&self) -> u32 {
        self.time
    }
}

impl RollingRtcTimer {
    /// A counter at tick zero.
    pub fn new() -> (r: RollingRtcTimer)
        ensures
            r@ == 0,
    {
        RollingRtcTimer { time: 0 }
    }

    /// Advances the counter by one tick, rolling over past `u32::MAX`.
    pub fn tick(&mut self)
        ensures
            final(self)@ == old(self)@.wrapping_add(1),
    {
        self.time = self.time.wrapping_add(1);
    }
}

impl RollingTimer for RollingRtcTimer {
    fn get_current_tick(&self) -> u32 {
        self.time
    }
}

impl RollingRtcTimer {
    /// The current tick.
    pub fn current_tick(&self) -> (r: u32)
        ensures
            r == self@,
    {
        self.time
    }
}

} // verus!
