//! The invincibility that bonus food grants, and the blinking of obstacles
//! that warns of its end.
//!
//! The effect runs through four phases. Each has a life timer; when it runs
//! out the next phase starts with fresh timers, and when the last one runs
//! out the effect is over.

use vstd::prelude::*;

use crate::timer::{ticked, Timer, TimerMode};

verus! {

/// Number of colors the head and the bonus food cycle through.
pub const COLOR_COUNT: usize = 12;

/// The phase in which obstacles blink.
pub const LAST_PHASE: usize = 3;

/// Period at which obstacles blink in the last phase, in microseconds.
pub const CROSSING_BLINK_PERIOD: u64 = 500_000;

/// Length of a phase, in microseconds.
pub open spec fn phase_duration(phase: int) -> u64 {
    if phase == 0 {
        15_000_000
    } else if phase == 1 {
        5_000_000
    } else if phase == 2 {
        6_000_000
    } else if phase == 3 {
        4_000_000
    } else {
        0
    }
}

/// Period of the color cycle in a phase, in microseconds.
pub open spec fn blink_period(phase: int) -> u64 {
    if phase == 0 {
        50_000
    } else if phase == 1 {
        500_000
    } else if phase == 2 {
        1_000_000
    } else {
        2_000_000
    }
}

/// Total length of the phases after `phase`.
pub open spec fn later_phases(phase: int) -> int
    decreases 3 - phase,
{
    if phase >= 3 {
        0
    } else {
        phase_duration(phase + 1) + later_phases(phase + 1)
    }
}

pub proof fn lemma_later_phases()
    ensures
        later_phases(3) == 0,
        later_phases(2) == 4_000_000,
        later_phases(1) == 10_000_000,
        later_phases(0) == 15_000_000,
{
    reveal_with_fuel(later_phases, 4);
}

pub open spec fn next_color(index: usize) -> usize {
    if index + 1 >= COLOR_COUNT {
        0
    } else {
        (index + 1) as usize
    }
}

/// The timers of a bonus effect, also used by the bonus food for its colors
/// alone (then with no life timer).
#[derive(Clone, Copy, Debug)]
pub struct BonusTimer {
    pub color_timer: Timer,
    pub index_color: usize,
    pub life_timer: Option<Timer>,
    pub life_cycle: usize,
}

/// The effect `b` after its life timer ran `delta` more microseconds: `None`
/// once the last phase is over.
pub open spec fn bonus_ticked(b: BonusTimer, delta: u64) -> Option<BonusTimer> {
    let t = ticked(b.life_timer.unwrap(), delta);
    if !t.finished {
        Some(BonusTimer { life_timer: Some(t), ..b })
    } else if b.life_cycle >= LAST_PHASE {
        None
    } else {
        let phase = (b.life_cycle + 1) as usize;
        Some(
            BonusTimer {
                color_timer: Timer::spec_new(blink_period(phase as int), TimerMode::Repeating),
                index_color: b.index_color,
                life_timer: Some(Timer::spec_new(phase_duration(phase as int), TimerMode::Once)),
                life_cycle: phase,
            },
        )
    }
}

/// The colors of `b` after `delta` more microseconds.
pub open spec fn colors_ticked(b: BonusTimer, delta: u64) -> BonusTimer {
    let t = ticked(b.color_timer, delta);
    BonusTimer {
        color_timer: t,
        index_color: if t.finished { next_color(b.index_color) } else { b.index_color },
        ..b
    }
}

impl BonusTimer {
    /// The color timer is running and the index names one of the colors.
    pub open spec fn colors_wf(&self) -> bool {
        &&& self.color_timer.wf()
        &&& self.color_timer.mode == TimerMode::Repeating
        &&& self.color_timer.duration > 0
        &&& self.index_color < COLOR_COUNT
    }

    /// A running effect: a phase of the table, with its timers.
    pub open spec fn wf(&self) -> bool {
        &&& self.colors_wf()
        &&& self.life_cycle <= LAST_PHASE
        &&& self.color_timer.duration == blink_period(self.life_cycle as int)
        &&& self.life_timer.is_some()
        &&& self.life_timer.unwrap().wf()
        &&& self.life_timer.unwrap().mode == TimerMode::Once
        &&& self.life_timer.unwrap().duration == phase_duration(self.life_cycle as int)
        &&& self.life_timer.unwrap().elapsed < self.life_timer.unwrap().duration
    }

    /// Microseconds until the effect ends.
    pub open spec fn remaining(&self) -> int {
        let t = self.life_timer.unwrap();
        (t.duration - t.elapsed) + later_phases(self.life_cycle as int)
    }

    /// The effect as it starts when bonus food is eaten.
    pub fn activated() -> (r: BonusTimer)
        ensures
            r.wf(),
            r.life_cycle == 0,
            r.index_color == 0,
            r.life_timer == Some(Timer::spec_new(phase_duration(0), TimerMode::Once)),
            r.color_timer == Timer::spec_new(blink_period(0), TimerMode::Repeating),
            r.remaining() == 30_000_000,
    {
        proof {
            lemma_later_phases();
        }
        BonusTimer {
            color_timer: Timer::new(50_000, TimerMode::Repeating),
            index_color: 0,
            life_timer: Some(Timer::new(15_000_000, TimerMode::Once)),
            life_cycle: 0,
        }
    }

    /// Advances the effect's life timer by `delta` microseconds; `None` once
    /// the last phase has run out.
    pub fn tick_life(self, delta: u64) -> (r: Option<BonusTimer>)
        requires
            self.wf(),
        ensures
            r == bonus_ticked(self, delta),
            r matches Some(b) ==> b.wf(),
    {
        let mut life = self.life_timer.unwrap();
        life.tick(delta);
        if !life.finished() {
            Some(BonusTimer { life_timer: Some(life), ..self })
        } else if self.life_cycle >= LAST_PHASE {
            None
        } else {
            let phase = self.life_cycle + 1;
            let (period, duration) = if phase == 1 {
                (500_000u64, 5_000_000u64)
            } else if phase == 2 {
                (1_000_000, 6_000_000)
            } else {
                (2_000_000, 4_000_000)
            };
            Some(
                BonusTimer {
                    color_timer: Timer::new(period, TimerMode::Repeating),
                    index_color: self.index_color,
                    life_timer: Some(Timer::new(duration, TimerMode::Once)),
                    life_cycle: phase,
                },
            )
        }
    }

    /// Advances the color cycle by `delta` microseconds.
    pub fn tick_colors(&mut self, delta: u64)
        requires
            old(self).colors_wf(),
        ensures
            *final(self) == colors_ticked(*old(self), delta),
            final(self).colors_wf(),
    {
        self.color_timer.tick(delta);
        if self.color_timer.finished() {
            self.index_color = self.index_color + 1;
            if self.index_color >= COLOR_COUNT {
                self.index_color = 0;
            }
        }
    }
}

impl Default for BonusTimer {
    /// The color cycle alone, as the bonus food carries it.
    fn default() -> (r: BonusTimer)
        ensures
            r.colors_wf(),
            r.color_timer == Timer::spec_new(blink_period(0), TimerMode::Repeating),
            r.index_color == 0,
            r.life_timer.is_none(),
            r.life_cycle == 0,
    {
        BonusTimer {
            color_timer: Timer::new(50_000, TimerMode::Repeating),
            index_color: 0,
            life_timer: None,
            life_cycle: 0,
        }
    }
}

/// Ticking a running effect by no more than what is left of its current
/// phase takes exactly that much off the time it has left. The phase moves
/// on exactly when its life timer runs out, to the next phase of the table,
/// and the effect ends exactly when its time left reaches zero, at the end
/// of the last phase.
pub proof fn lemma_bonus_lifecycle(b: BonusTimer, delta: u64)
    requires
        b.wf(),
        delta <= b.life_timer.unwrap().duration - b.life_timer.unwrap().elapsed,
    ensures
        match bonus_ticked(b, delta) {
            Some(n) => {
                &&& n.wf()
                &&& n.remaining() == b.remaining() - delta
                &&& n.remaining() > 0
                &&& n.life_cycle == if delta == b.life_timer.unwrap().duration
                    - b.life_timer.unwrap().elapsed {
                    b.life_cycle + 1
                } else {
                    b.life_cycle as int
                }
            },
            None => {
                &&& b.life_cycle == LAST_PHASE
                &&& b.remaining() == delta
            },
        },
{
    let t = b.life_timer.unwrap();
    lemma_later_phases();
    if t.elapsed + delta >= t.duration && b.life_cycle < LAST_PHASE {
        assert(phase_duration(b.life_cycle + 1) > 0);
    }
}

/// What the obstacle blinking of the last phase is doing.
///
/// The fields are the blink timer (started when the last phase begins),
/// whether the obstacles were faded when the effect began, and whether they
/// are faded now. Faded obstacles and body segments are drawn see-through.
#[derive(Clone, Copy, Debug)]
pub struct CrossingObstaclesTimer(pub Option<Timer>, pub bool, pub bool);

impl Default for CrossingObstaclesTimer {
    fn default() -> (r: CrossingObstaclesTimer)
        ensures
            r.0.is_none(),
            !r.1,
            !r.2,
    {
        CrossingObstaclesTimer(None, false, false)
    }
}

/// The blinking after a frame of `delta` microseconds, in phase `life_cycle`
/// of a running effect.
pub open spec fn crossing_ticked(
    c: CrossingObstaclesTimer,
    life_cycle: usize,
    delta: u64,
) -> CrossingObstaclesTimer {
    if !c.1 {
        CrossingObstaclesTimer(c.0, true, true)
    } else if life_cycle == LAST_PHASE {
        match c.0 {
            None => CrossingObstaclesTimer(
                Some(Timer::spec_new(CROSSING_BLINK_PERIOD, TimerMode::Repeating)),
                true,
                c.2,
            ),
            Some(t) => {
                let n = ticked(t, delta);
                CrossingObstaclesTimer(Some(n), true, if n.finished { !c.2 } else { c.2 })
            },
        }
    } else {
        c
    }
}

impl CrossingObstaclesTimer {
    pub open spec fn wf(&self) -> bool {
        self.0 matches Some(t) ==> t.wf() && t.mode == TimerMode::Repeating && t.duration
            == CROSSING_BLINK_PERIOD
    }

    /// One frame of the blinking: everything fades when the effect begins,
    /// and in the last phase the faded state flips at every blink period.
    pub fn obstacles_crossing(&mut self, life_cycle: usize, delta: u64)
        requires
            old(self).wf(),
        ensures
            *final(self) == crossing_ticked(*old(self), life_cycle, delta),
            final(self).wf(),
    {
        if !self.1 {
            self.1 = true;
            self.2 = true;
        } else if life_cycle == LAST_PHASE {
            match self.0 {
                None => {
                    self.0 = Some(Timer::new(CROSSING_BLINK_PERIOD, TimerMode::Repeating));
                },
                Some(t) => {
                    let mut n = t;
                    n.tick(delta);
                    self.0 = Some(n);
                    if n.finished() {
                        self.2 = !self.2;
                    }
                },
            }
        }
    }
}

} // verus!
