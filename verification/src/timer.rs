//! The timer pair: two independent 8-bit countdown counters.

use vstd::prelude::*;

verus! {

/// The CHIP-8 timer pair.
///
/// Both counters are decremented by one on every timer tick while they
/// are positive, and are clamped at zero (they never underflow). The
/// tick cadence (60 Hz) is driven from outside; a tick whose sound
/// counter was positive also triggers one audible beep, which the
/// caller observes through the return value of [`Timer::cycle`].
pub struct Timer {
    /// Delay timer: decremented once per tick while positive.
    pub delay_timer: u8,
    /// Sound timer: decremented once per tick while positive; a tick
    /// that finds it positive triggers a beep.
    pub sound_timer: u8,
}

impl Timer {
    /// Creates a timer pair with both counters at zero.
    pub fn new() -> (r: Self)
        ensures
            r.delay_timer == 0,
            r.sound_timer == 0,
    {
        Timer { delay_timer: 0, sound_timer: 0 }
    }

    /// One timer tick: decrements each counter that is positive and
    /// leaves a counter that is already zero at zero. Returns whether
    /// the tick triggered a beep, which happens exactly when the sound
    /// timer was positive before the tick.
    pub fn cycle(&mut self) -> (beeped: bool)
        ensures
            final(self).delay_timer == if old(self).delay_timer > 0 {
                (old(self).delay_timer - 1) as u8
            } else {
                0u8
            },
            final(self).sound_timer == if old(self).sound_timer > 0 {
                (old(self).sound_timer - 1) as u8
            } else {
                0u8
            },
            beeped == (old(self).sound_timer > 0),
    {
        if self.delay_timer > 0 {
            self.delay_timer = self.delay_timer - 1;
        }
        if self.sound_timer > 0 {
            self.sound_timer = self.sound_timer - 1;
            true
        } else {
            false
        }
    }
}

} // verus!
