//! One-shot countdown timer, the sole mutable cross-frame state of the jump
//! eligibility tracker.
//!
//! A timer counts elapsed time toward a fixed duration, both in integer
//! microseconds. Ticking past the duration saturates: a finished timer stays
//! finished, and elapsed time never exceeds the duration.

use vstd::prelude::*;

verus! {

/// Mathematical model of a one-shot countdown timer: a fixed total duration
/// and the time elapsed toward it, both in microseconds.
pub ghost struct TimerModel {
    pub duration: nat,
    pub elapsed: nat,
}

impl TimerModel {
    /// The timer has counted all the way down.
    pub open spec fn finished(self) -> bool {
        self.elapsed >= self.duration
    }

    /// Time left until the timer finishes.
    pub open spec fn remaining(self) -> nat {
        if self.elapsed <= self.duration {
            (self.duration - self.elapsed) as nat
        } else {
            0
        }
    }

    /// Advance by `delta` microseconds, saturating at the duration.
    pub open spec fn tick(self, delta: nat) -> TimerModel {
        TimerModel {
            duration: self.duration,
            elapsed: if self.elapsed + delta >= self.duration {
                self.duration
            } else {
                self.elapsed + delta
            },
        }
    }

    /// Wind the timer back to its full duration.
    pub open spec fn reset(self) -> TimerModel {
        TimerModel { duration: self.duration, elapsed: 0 }
    }

    /// A timer as it stands the instant its whole window is consumed.
    pub open spec fn spent(self) -> TimerModel {
        TimerModel { duration: self.duration, elapsed: self.duration }
    }
}

/// Countdown timer over integer microseconds.
pub struct Timer {
    duration_us: u64,
    elapsed_us: u64,
}

impl View for Timer {
    type V = TimerModel;

    closed spec fn view(&self) -> TimerModel {
        TimerModel { duration: self.duration_us as nat, elapsed: self.elapsed_us as nat }
    }
}

impl Timer {
    /// A fresh timer with its whole window ahead of it.
    pub fn new(duration_us: u64) -> (t: Timer)
        ensures
            t@ == (TimerModel { duration: duration_us as nat, elapsed: 0 }),
    {
        Timer { duration_us, elapsed_us: 0 }
    }

    /// A timer that starts already expired, as the jump delay does at spawn.
    pub fn new_finished(duration_us: u64) -> (t: Timer)
        ensures
            t@ == (TimerModel { duration: duration_us as nat, elapsed: duration_us as nat }),
            t@.finished(),
    {
        Timer { duration_us, elapsed_us: duration_us }
    }

    /// Advance the timer by `delta_us` microseconds of frame time.
    pub fn tick(&mut self, delta_us: u64)
        ensures
            final(self)@ == old(self)@.tick(delta_us as nat),
    {
        let rem: u64 = if self.elapsed_us >= self.duration_us {
            0
        } else {
            self.duration_us - self.elapsed_us
        };
        if delta_us >= rem {
            self.elapsed_us = self.duration_us;
        } else {
            self.elapsed_us = self.elapsed_us + delta_us;
        }
    }

    /// Wind the timer back to its full duration.
    pub fn reset(&mut self)
        ensures
            final(self)@ == old(self)@.reset(),
    {
        self.elapsed_us = 0;
    }

    /// Whether the timer has counted all the way down.
    pub fn finished(&self) -> (b: bool)
        ensures
            b == self@.finished(),
    {
        self.elapsed_us >= self.duration_us
    }

    /// Time left until the timer finishes, in microseconds.
    pub fn remaining_us(&self) -> (r: u64)
        ensures
            r as nat == self@.remaining(),
    {
        if self.elapsed_us >= self.duration_us {
            0
        } else {
            self.duration_us - self.elapsed_us
        }
    }

    /// The fixed duration of the timer, in microseconds.
    pub fn duration_us(&self) -> (d: u64)
        ensures
            d as nat == self@.duration,
    {
        self.duration_us
    }

    /// Elapsed time counted so far, in microseconds.
    pub fn elapsed_us(&self) -> (e: u64)
        ensures
            e as nat == self@.elapsed,
    {
        self.elapsed_us
    }
}

} // verus!
