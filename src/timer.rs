use vstd::prelude::*;

verus! {

/// Whether a timer stops after elapsing once or starts over.
#[derive(Clone, Copy, Debug, PartialEq, Eq, Structural)]
pub enum TimerMode {
    Once,
    Repeating,
}

/// A countdown measured in milliseconds.
#[derive(Clone, Copy, Debug, PartialEq, Eq, Structural)]
pub struct Timer {
    pub duration: u64,
    pub elapsed: u64,
    pub mode: TimerMode,
    /// A one-shot timer has run out, or a repeating one ran out in the last tick.
    pub finished: bool,
    /// The timer ran out during the last tick.
    pub just_finished: bool,
}

impl Timer {
    pub open spec fn wf(self) -> bool {
        &&& self.duration > 0
        &&& self.elapsed <= self.duration
        &&& self.mode == TimerMode::Repeating ==> self.elapsed < self.duration
        &&& self.mode == TimerMode::Once ==> (self.finished <==> self.elapsed == self.duration)
    }

    /// The timer after `dt` more milliseconds.
    pub open spec fn ticked(self, dt: u64) -> Timer {
        let total = self.elapsed + dt;
        if self.mode == TimerMode::Once && self.finished {
            Timer { just_finished: false, ..self }
        } else if total >= self.duration {
            if self.mode == TimerMode::Repeating {
                Timer {
                    elapsed: (total % (self.duration as int)) as u64,
                    finished: true,
                    just_finished: true,
                    ..self
                }
            } else {
                Timer { elapsed: self.duration, finished: true, just_finished: true, ..self }
            }
        } else {
            Timer { elapsed: total as u64, finished: false, just_finished: false, ..self }
        }
    }

    pub open spec fn new_spec(duration: u64, mode: TimerMode) -> Timer {
        Timer { duration, elapsed: 0, mode, finished: false, just_finished: false }
    }

    /// A fresh timer of `duration` milliseconds.
    pub fn new(duration: u64, mode: TimerMode) -> (r: Timer)
        requires
            duration > 0,
        ensures
            r.wf(),
            r == Timer::new_spec(duration, mode),
    {
        Timer { duration, elapsed: 0, mode, finished: false, just_finished: false }
    }

    /// Advances the timer by `dt` milliseconds.
    pub fn tick(&mut self, dt: u64)
        requires
            old(self).wf(),
        ensures
            final(self).wf(),
            *final(self) == old(self).ticked(dt),
    {
        if self.mode == TimerMode::Once && self.finished {
            self.just_finished = false;
            return;
        }
        let total: u128 = self.elapsed as u128 + dt as u128;
        if total >= self.duration as u128 {
            if self.mode == TimerMode::Repeating {
                let rest = total % (self.duration as u128);
                self.elapsed = rest as u64;
            } else {
                self.elapsed = self.duration;
            }
            self.finished = true;
            self.just_finished = true;
        } else {
            self.elapsed = total as u64;
            self.finished = false;
            self.just_finished = false;
        }
    }
}

} // verus!
