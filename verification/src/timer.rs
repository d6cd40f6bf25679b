//! A polled countdown timer, advanced once per tick by the frame's delta
//! time. A one-shot timer stays finished once it crosses its duration; a
//! repeating timer wraps around and reports the tick on which it crossed.

use vstd::prelude::*;

verus! {

#[derive(Debug, Clone, Copy, PartialEq, Eq, Structural)]
pub enum TimerMode {
    Once,
    Repeating,
}

/// Milliseconds; keeps every tick's arithmetic far from overflow.
pub const TIMER_MS_LIMIT: u64 = 0xFFFF_FFFF;

#[derive(Debug, Clone, Copy)]
pub struct Timer {
    pub duration_ms: u64,
    pub elapsed_ms: u64,
    pub mode: TimerMode,
    pub just_finished: bool,
}

impl Timer {
    /// Well-formedness: a positive, bounded duration and an elapsed time
    /// that never runs past it (a repeating timer wraps strictly below it).
    pub open spec fn wf(self) -> bool {
        &&& 1 <= self.duration_ms <= TIMER_MS_LIMIT
        &&& self.mode is Repeating ==> self.elapsed_ms < self.duration_ms
        &&& self.mode is Once ==> self.elapsed_ms <= self.duration_ms
    }

    /// A one-shot timer is finished once its duration has fully elapsed;
    /// a repeating timer counts as finished on the tick it wrapped.
    pub open spec fn spec_finished(self) -> bool {
        match self.mode {
            TimerMode::Once => self.elapsed_ms >= self.duration_ms,
            TimerMode::Repeating => self.just_finished,
        }
    }

    pub fn new(duration_ms: u64, mode: TimerMode) -> (r: Timer)
        requires
            1 <= duration_ms <= TIMER_MS_LIMIT,
        ensures
            r.wf(),
            r.duration_ms == duration_ms,
            r.mode == mode,
            r.elapsed_ms == 0,
            !r.just_finished,
    {
        Timer { duration_ms, elapsed_ms: 0, mode, just_finished: false }
    }

    /// Advance by `delta_ms`. A one-shot timer saturates at its duration and
    /// reports `just_finished` only on the tick it crossed; a repeating timer
    /// wraps its elapsed time and reports whether it crossed this tick.
    pub fn tick(&mut self, delta_ms: u64)
        requires
            old(self).wf(),
            delta_ms <= TIMER_MS_LIMIT,
        ensures
            final(self).wf(),
            final(self).duration_ms == old(self).duration_ms,
            final(self).mode == old(self).mode,
            old(self).mode is Once ==> {
                &&& final(self).elapsed_ms == if old(self).elapsed_ms + delta_ms
                    >= old(self).duration_ms { old(self).duration_ms as int } else {
                    old(self).elapsed_ms + delta_ms }
                &&& final(self).just_finished == (!old(self).spec_finished()
                    && final(self).spec_finished())
            },
            old(self).mode is Repeating ==> {
                &&& final(self).just_finished == (old(self).elapsed_ms + delta_ms
                    >= old(self).duration_ms)
                &&& final(self).elapsed_ms == (old(self).elapsed_ms + delta_ms)
                    % (old(self).duration_ms as int)
            },
    {
        match self.mode {
            TimerMode::Once => {
                let was_finished = self.elapsed_ms >= self.duration_ms;
                let total = self.elapsed_ms + delta_ms;
                if total >= self.duration_ms {
                    self.elapsed_ms = self.duration_ms;
                } else {
                    self.elapsed_ms = total;
                }
                self.just_finished = !was_finished && self.elapsed_ms
                    >= self.duration_ms;
            },
            TimerMode::Repeating => {
                let total = self.elapsed_ms + delta_ms;
                if total >= self.duration_ms {
                    self.just_finished = true;
                    self.elapsed_ms = total % self.duration_ms;
                } else {
                    self.just_finished = false;
                    self.elapsed_ms = total;
                    proof {
                        vstd::arithmetic::div_mod::lemma_small_mod(
                            total as nat,
                            self.duration_ms as nat,
                        );
                    }
                }
            },
        }
    }

    /// Whether the timer has finished (see `spec_finished`).
    pub fn finished(&self) -> (r: bool)
        ensures
            r == self.spec_finished(),
    {
        match self.mode {
            TimerMode::Once => self.elapsed_ms >= self.duration_ms,
            TimerMode::Repeating => self.just_finished,
        }
    }
}

} // verus!
