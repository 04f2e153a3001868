use vstd::prelude::*;

verus! {

/// Whether a timer stops when it first reaches its duration or starts over.
#[derive(Clone, Copy, Debug, PartialEq, Eq, Structural)]
pub enum TimerMode {
    Once,
    Repeating,
}

/// A countdown measured in microseconds.
///
/// `finished` reports whether the last tick reached the duration: a `Once`
/// timer stays finished from then on, a `Repeating` one starts over and is
/// finished only on the ticks that wrapped around.
#[derive(Clone, Copy, Debug)]
pub struct Timer {
    pub duration: u64,
    pub elapsed: u64,
    pub mode: TimerMode,
    pub finished: bool,
}

/// The timer `t` after `delta` more microseconds have passed.
pub open spec fn ticked(t: Timer, delta: u64) -> Timer {
    let total = t.elapsed + delta;
    match t.mode {
        TimerMode::Once => Timer {
            elapsed: if total >= t.duration { t.duration } else { total as u64 },
            finished: total >= t.duration,
            ..t
        },
        TimerMode::Repeating => Timer {
            elapsed: if t.duration == 0 { 0 } else { (total % (t.duration as int)) as u64 },
            finished: total >= t.duration,
            ..t
        },
    }
}

impl Timer {
    pub open spec fn spec_new(duration: u64, mode: TimerMode) -> Timer {
        Timer { duration, elapsed: 0, mode, finished: false }
    }

    /// Elapsed time never passes the duration, and a repeating timer has
    /// always started over once it got there.
    pub open spec fn wf(&self) -> bool {
        &&& self.elapsed <= self.duration
        &&& self.mode == TimerMode::Repeating && self.duration > 0 ==> self.elapsed
            < self.duration
    }

    pub fn new(duration: u64, mode: TimerMode) -> (t: Timer)
        ensures
            t == Timer::spec_new(duration, mode),
            t.wf(),
    {
        Timer { duration, elapsed: 0, mode, finished: false }
    }

    /// Lets `delta` microseconds pass.
    pub fn tick(&mut self, delta: u64)
        requires
            old(self).wf(),
        ensures
            *final(self) == ticked(*old(self), delta),
            final(self).wf(),
    {
        let left = self.duration - self.elapsed;
        let reached = delta >= left;
        match self.mode {
            TimerMode::Once => {
                if reached {
                    self.elapsed = self.duration;
                } else {
                    self.elapsed = self.elapsed + delta;
                }
            },
            TimerMode::Repeating => {
                if self.duration == 0 {
                    self.elapsed = 0;
                } else if reached {
                    let over = delta - left;
                    proof {
                        vstd::arithmetic::div_mod::lemma_mod_add_multiples_vanish(
                            over as int,
                            self.duration as int,
                        );
                    }
                    self.elapsed = over % self.duration;
                } else {
                    proof {
                        vstd::arithmetic::div_mod::lemma_small_mod(
                            (self.elapsed + delta) as nat,
                            self.duration as nat,
                        );
                    }
                    self.elapsed = self.elapsed + delta;
                }
            },
        }
        self.finished = reached;
    }

    pub fn finished(&self) -> (r: bool)
        ensures
            r == self.finished,
    {
        self.finished
    }
}

} // verus!
