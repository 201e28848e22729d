//! One-shot countdown timers, measured in whole milliseconds.
//!
//! A timer counts elapsed time toward a target duration and reports expiry
//! as a one-shot edge: `tick` returns `true` only on the exact call that
//! crosses the target, and `false` on every later call until the timer is
//! replaced by a fresh one.

use vstd::prelude::*;

verus! {

/// Mathematical state of a [`Timer`]: elapsed and target in milliseconds,
/// plus whether the target has been reached.
pub ghost struct TimerV {
    pub elapsed: int,
    pub target: int,
    pub finished: bool,
}

impl TimerV {
    /// A timer is well formed when its target is positive, its elapsed time
    /// never exceeds the target, and `finished` holds exactly when the
    /// elapsed time has been clamped to the target.
    pub open spec fn wf(self) -> bool {
        &&& 1 <= self.target
        &&& 0 <= self.elapsed <= self.target
        &&& self.finished <==> self.elapsed == self.target
    }

    /// A freshly armed timer: nothing elapsed, not finished.
    pub open spec fn fresh(target: int) -> TimerV {
        TimerV { elapsed: 0, target: target, finished: false }
    }
}

/// What one call of [`Timer::tick`] does: the new timer state and whether
/// this very call crossed the target (the one-shot edge).
pub open spec fn timer_step(t: TimerV, delta: int) -> (TimerV, bool) {
    if t.finished {
        (t, false)
    } else if t.elapsed + delta >= t.target {
        (TimerV { elapsed: t.target, target: t.target, finished: true }, true)
    } else {
        (TimerV { elapsed: t.elapsed + delta, target: t.target, finished: false }, false)
    }
}

/// Counts elapsed milliseconds toward a target duration, exposing expiry as
/// a one-shot edge. Owned exclusively by one spawner and replaced wholesale
/// (never reset in place) when it expires, so overrun time is dropped.
#[derive(Clone, Copy, PartialEq, Eq, Structural, Debug)]
pub struct Timer {
    pub elapsed: u64,
    pub target: u64,
    pub finished: bool,
}

impl View for Timer {
    type V = TimerV;

    open spec fn view(&self) -> TimerV {
        TimerV { elapsed: self.elapsed as int, target: self.target as int, finished: self.finished }
    }
}

impl Timer {
    /// Arm a fresh one-shot timer with a positive target duration.
    pub fn from_millis(target: u64) -> (t: Timer)
        requires
            target >= 1,
        ensures
            t@ == TimerV::fresh(target as int),
            t@.wf(),
    {
        Timer { elapsed: 0, target, finished: false }
    }

    /// Advance the timer by `delta` milliseconds. Returns `true` exactly
    /// when this call crosses the target for the first time; once finished,
    /// further calls change nothing and return `false`.
    pub fn tick(&mut self, delta: u64) -> (just_finished: bool)
        requires
            old(self)@.wf(),
        ensures
            final(self)@.wf(),
            (final(self)@, just_finished) == timer_step(old(self)@, delta as int),
    {
        if self.finished {
            false
        } else if delta >= self.target - self.elapsed {
            self.elapsed = self.target;
            self.finished = true;
            true
        } else {
            self.elapsed = self.elapsed + delta;
            false
        }
    }
}

} // verus!
