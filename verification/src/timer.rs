//! Countdown timer, modeled in whole milliseconds.
//!
//! A timer is a pair `{duration_ms, elapsed_ms}`; it is ready once the
//! elapsed time has reached the duration. Elapsed time is capped at the
//! duration, so `time_left_ms` never underflows. A speed-up replaces the
//! whole timer with a fresh one (see the formation engine), rather than
//! mutating the duration in place.

use vstd::prelude::*;

verus! {

pub struct Timer {
    pub duration_ms: u64,
    pub elapsed_ms: u64,
}

impl Timer {
    /// Elapsed time never runs past the duration.
    pub open spec fn wf(self) -> bool {
        self.elapsed_ms <= self.duration_ms
    }

    pub open spec fn spec_ready(self) -> bool {
        self.elapsed_ms >= self.duration_ms
    }

    pub open spec fn spec_time_left(self) -> int {
        self.duration_ms - self.elapsed_ms
    }

    /// Whether accumulating `delta_ms` more elapsed time reaches the duration.
    pub open spec fn fires(self, delta_ms: u64) -> bool {
        self.elapsed_ms + delta_ms >= self.duration_ms
    }

    /// More than half of the countdown is still left. Drives the blink of the
    /// enemy glyph, synchronized to the tick cadence.
    pub open spec fn spec_blink_bright(self) -> bool {
        self.duration_ms - self.elapsed_ms > self.elapsed_ms
    }

    pub fn from_millis(ms: u64) -> (t: Timer)
        ensures
            t.duration_ms == ms,
            t.elapsed_ms == 0,
            t.wf(),
    {
        Timer { duration_ms: ms, elapsed_ms: 0 }
    }

    /// Accumulate elapsed time, capped at the duration.
    pub fn update(&mut self, delta_ms: u64)
        requires
            old(self).wf(),
        ensures
            final(self).wf(),
            final(self).duration_ms == old(self).duration_ms,
            old(self).fires(delta_ms) ==> final(self).elapsed_ms == final(self).duration_ms,
            !old(self).fires(delta_ms) ==> final(self).elapsed_ms == old(self).elapsed_ms + delta_ms,
            final(self).spec_ready() == old(self).fires(delta_ms),
    {
        let remaining = self.duration_ms - self.elapsed_ms;
        if delta_ms >= remaining {
            self.elapsed_ms = self.duration_ms;
        } else {
            self.elapsed_ms = self.elapsed_ms + delta_ms;
        }
    }

    pub fn ready(&self) -> (r: bool)
        ensures
            r == self.spec_ready(),
    {
        self.elapsed_ms >= self.duration_ms
    }

    /// Zero the elapsed time; the duration is unchanged.
    pub fn reset(&mut self)
        ensures
            final(self).wf(),
            final(self).duration_ms == old(self).duration_ms,
            final(self).elapsed_ms == 0,
    {
        self.elapsed_ms = 0;
    }

    pub fn time_left_ms(&self) -> (r: u64)
        requires
            self.wf(),
        ensures
            r == self.spec_time_left(),
    {
        self.duration_ms - self.elapsed_ms
    }
}

} // verus!
