//! The Pomodoro phase state machine.
//!
//! Time is modelled as a monotonic clock value in milliseconds, handed in by
//! the caller at every operation that reads or stamps the clock. The engine
//! itself therefore never touches the system clock and is verified for every
//! clock value.
//!
//! Policy choices, documented here once:
//! - `next_state` auto-advances: a finished Work phase flows directly into
//!   ShortBreak (or LongBreak every `long_break_interval`-th completion), and
//!   a finished break flows back into Work.
//! - `start` only moves Idle to Work; when a phase is already running it is a
//!   no-op rather than restarting the running phase's clock.
//! - `completed_work_sessions` saturates at `u32::MAX` instead of wrapping;
//!   it never decreases.

use vstd::prelude::*;

verus! {

/// One minute in milliseconds.
pub const MINUTE_MS: u64 = 60000;

/// The phase the engine is in. `Idle` is both the initial state and the
/// state after `stop`; it is re-enterable.
#[derive(Clone, Copy, Debug, PartialEq, Eq, Structural)]
pub enum PomodoroState {
    Idle,
    Work,
    ShortBreak,
    LongBreak,
}

/// The Pomodoro engine. All fields are plain values; `start_time` and
/// `last_completed_time` are clock stamps in milliseconds.
pub struct PomodoroTimer {
    /// Clock stamp of the moment the current phase began; `None` iff `Idle`.
    pub start_time: Option<u64>,
    /// Length of a Work phase, milliseconds.
    pub work_duration: u64,
    /// Length of a ShortBreak phase, milliseconds.
    pub short_break_duration: u64,
    /// Length of a LongBreak phase, milliseconds.
    pub long_break_duration: u64,
    /// Current phase.
    pub state: PomodoroState,
    /// How many Work phases have been completed; saturates, never decreases.
    pub completed_work_sessions: u32,
    /// Every this-many-th completed Work phase is followed by a LongBreak.
    pub long_break_interval: u32,
    /// Clock stamp of the most recent phase completion, cleared by an
    /// explicit phase jump.
    pub last_completed_time: Option<u64>,
}

impl PomodoroTimer {
    /// Structural invariant: a phase start stamp exists exactly when a phase
    /// is running, and the long-break interval is a usable divisor.
    pub open spec fn wf(self) -> bool {
        &&& self.start_time is Some <==> self.state != PomodoroState::Idle
        &&& self.long_break_interval >= 1
    }

    /// The configured length of the given running phase.
    pub open spec fn duration_for(self, state: PomodoroState) -> u64 {
        match state {
            PomodoroState::Work => self.work_duration,
            PomodoroState::ShortBreak => self.short_break_duration,
            PomodoroState::LongBreak => self.long_break_duration,
            PomodoroState::Idle => 0,
        }
    }

    /// Milliseconds spent in the current phase at clock value `now`.
    /// A clock reading older than the phase start counts as zero.
    pub open spec fn spec_elapsed(self, now: u64) -> u64 {
        if self.start_time is Some {
            let start = self.start_time->0;
            if now >= start {
                (now - start) as u64
            } else {
                0
            }
        } else {
            0
        }
    }

    /// Milliseconds left in the current phase at clock value `now`, floored
    /// at zero.
    pub open spec fn spec_remaining(self, now: u64) -> u64 {
        let dur = self.duration_for(self.state);
        if self.spec_elapsed(now) >= dur {
            0
        } else {
            (dur - self.spec_elapsed(now)) as u64
        }
    }

    /// The engine after `start` at clock value `now`: Idle moves to Work,
    /// anything else stays as it is.
    pub open spec fn spec_start(self, now: u64) -> PomodoroTimer {
        if self.state == PomodoroState::Idle {
            PomodoroTimer {
                state: PomodoroState::Work,
                start_time: Some(now),
                last_completed_time: None,
                ..self
            }
        } else {
            self
        }
    }

    /// The engine after `next_state` at clock value `now`.
    pub open spec fn spec_next_state(self, now: u64) -> PomodoroTimer {
        match self.state {
            PomodoroState::Idle => self,
            PomodoroState::Work => {
                let done = if self.completed_work_sessions == u32::MAX {
                    u32::MAX
                } else {
                    (self.completed_work_sessions + 1) as u32
                };
                let next = if done as int % self.long_break_interval as int == 0 {
                    PomodoroState::LongBreak
                } else {
                    PomodoroState::ShortBreak
                };
                PomodoroTimer {
                    state: next,
                    start_time: Some(now),
                    completed_work_sessions: done,
                    last_completed_time: Some(now),
                    ..self
                }
            },
            PomodoroState::ShortBreak | PomodoroState::LongBreak => PomodoroTimer {
                state: PomodoroState::Work,
                start_time: Some(now),
                last_completed_time: Some(now),
                ..self
            },
        }
    }

    /// A fresh engine: Idle, 25/5/15 minute durations, long break every
    /// fourth completed Work phase.
    pub fn new() -> (t: PomodoroTimer)
        ensures
            t.wf(),
            t.state == PomodoroState::Idle,
            t.start_time is None,
            t.work_duration == 25 * MINUTE_MS,
            t.short_break_duration == 5 * MINUTE_MS,
            t.long_break_duration == 15 * MINUTE_MS,
            t.completed_work_sessions == 0,
            t.long_break_interval == 4,
            t.last_completed_time is None,
    {
        PomodoroTimer {
            start_time: None,
            work_duration: 25 * MINUTE_MS,
            short_break_duration: 5 * MINUTE_MS,
            long_break_duration: 15 * MINUTE_MS,
            state: PomodoroState::Idle,
            completed_work_sessions: 0,
            long_break_interval: 4,
            last_completed_time: None,
        }
    }

    /// Begin a Work phase if no phase is running; otherwise do nothing.
    pub fn start(&mut self, now: u64)
        requires
            old(self).wf(),
        ensures
            final(self).wf(),
            *final(self) == old(self).spec_start(now),
    {
        if matches!(self.state, PomodoroState::Idle) {
            self.state = PomodoroState::Work;
            self.start_time = Some(now);
            self.last_completed_time = None;
        }
    }

    /// Force the engine back to Idle and forget the phase start stamp.
    pub fn stop(&mut self)
        requires
            old(self).wf(),
        ensures
            final(self).wf(),
            final(self).state == PomodoroState::Idle,
            final(self).start_time is None,
            final(self).work_duration == old(self).work_duration,
            final(self).short_break_duration == old(self).short_break_duration,
            final(self).long_break_duration == old(self).long_break_duration,
            final(self).completed_work_sessions == old(self).completed_work_sessions,
            final(self).long_break_interval == old(self).long_break_interval,
            final(self).last_completed_time == old(self).last_completed_time,
    {
        self.start_time = None;
        self.state = PomodoroState::Idle;
    }

    /// Jump to an explicit running phase, stamping its start and clearing
    /// the record of the last completion.
    pub fn set_state(&mut self, new_state: PomodoroState, now: u64)
        requires
            old(self).wf(),
            new_state != PomodoroState::Idle,
        ensures
            final(self).wf(),
            final(self).state == new_state,
            final(self).start_time == Some(now),
            final(self).last_completed_time is None,
            final(self).work_duration == old(self).work_duration,
            final(self).short_break_duration == old(self).short_break_duration,
            final(self).long_break_duration == old(self).long_break_duration,
            final(self).completed_work_sessions == old(self).completed_work_sessions,
            final(self).long_break_interval == old(self).long_break_interval,
    {
        self.state = new_state;
        self.start_time = Some(now);
        self.last_completed_time = None;
    }

    /// Advance the phase machine: Work flows into a break (a LongBreak on
    /// every `long_break_interval`-th completion, else a ShortBreak), breaks
    /// flow back into Work, Idle stays Idle. Completing a Work phase bumps
    /// the session counter; every transition out of a running phase stamps
    /// `last_completed_time` and restarts the phase clock.
    pub fn next_state(&mut self, now: u64)
        requires
            old(self).wf(),
        ensures
            final(self).wf(),
            *final(self) == old(self).spec_next_state(now),
            final(self).completed_work_sessions >= old(self).completed_work_sessions,
    {
        match self.state {
            PomodoroState::Idle => {},
            PomodoroState::Work => {
                if self.completed_work_sessions < u32::MAX {
                    self.completed_work_sessions = self.completed_work_sessions + 1;
                }
                if self.completed_work_sessions % self.long_break_interval == 0 {
                    self.state = PomodoroState::LongBreak;
                } else {
                    self.state = PomodoroState::ShortBreak;
                }
                self.start_time = Some(now);
                self.last_completed_time = Some(now);
            },
            PomodoroState::ShortBreak | PomodoroState::LongBreak => {
                self.state = PomodoroState::Work;
                self.start_time = Some(now);
                self.last_completed_time = Some(now);
            },
        }
    }

    /// Milliseconds left in the running phase, floored at zero; `None`
    /// exactly when the engine is Idle.
    pub fn remaining_time(&self, now: u64) -> (r: Option<u64>)
        requires
            self.wf(),
        ensures
            r is Some <==> self.state != PomodoroState::Idle,
            r is Some ==> r->0 == self.spec_remaining(now),
    {
        match self.start_time {
            None => None,
            Some(start) => {
                let elapsed: u64 = if now >= start {
                    now - start
                } else {
                    0
                };
                let duration: u64 = match self.state {
                    PomodoroState::Work => self.work_duration,
                    PomodoroState::ShortBreak => self.short_break_duration,
                    PomodoroState::LongBreak => self.long_break_duration,
                    PomodoroState::Idle => 0,
                };
                if elapsed >= duration {
                    Some(0)
                } else {
                    Some(duration - elapsed)
                }
            },
        }
    }

    /// Set the Work phase length to `minutes`. A pure field update:
    /// remaining time is always measured against the currently configured
    /// length, so a running Work phase counts toward the new one.
    pub fn set_work_duration(&mut self, minutes: u64)
        requires
            old(self).wf(),
            minutes * 60000 <= u64::MAX,
        ensures
            final(self).wf(),
            *final(self) == (PomodoroTimer { work_duration: (minutes * 60000) as u64, ..*old(self) }),
    {
        self.work_duration = minutes * MINUTE_MS;
    }

    /// Set the ShortBreak phase length to `minutes`.
    pub fn set_short_break_duration(&mut self, minutes: u64)
        requires
            old(self).wf(),
            minutes * 60000 <= u64::MAX,
        ensures
            final(self).wf(),
            *final(self) == (PomodoroTimer {
                short_break_duration: (minutes * 60000) as u64,
                ..*old(self)
            }),
    {
        self.short_break_duration = minutes * MINUTE_MS;
    }

    /// Set the LongBreak phase length to `minutes`.
    pub fn set_long_break_duration(&mut self, minutes: u64)
        requires
            old(self).wf(),
            minutes * 60000 <= u64::MAX,
        ensures
            final(self).wf(),
            *final(self) == (PomodoroTimer {
                long_break_duration: (minutes * 60000) as u64,
                ..*old(self)
            }),
    {
        self.long_break_duration = minutes * MINUTE_MS;
    }

    /// Set how many Work completions separate LongBreaks.
    pub fn set_long_break_interval(&mut self, interval: u32)
        requires
            old(self).wf(),
            interval >= 1,
        ensures
            final(self).wf(),
            *final(self) == (PomodoroTimer { long_break_interval: interval, ..*old(self) }),
    {
        self.long_break_interval = interval;
    }

    /// Milliseconds since the last phase completion, if one is on record.
    /// A clock reading older than the stamp counts as zero.
    pub fn time_since_last_completion(&self, now: u64) -> (r: Option<u64>)
        ensures
            r is Some <==> self.last_completed_time is Some,
            self.last_completed_time is Some ==> r == Some(
                if now >= self.last_completed_time->0 {
                    (now - self.last_completed_time->0) as u64
                } else {
                    0
                },
            ),
    {
        match self.last_completed_time {
            None => None,
            Some(stamp) => {
                if now >= stamp {
                    Some(now - stamp)
                } else {
                    Some(0)
                }
            },
        }
    }
}

/// Law: with a long-break interval of four and no completed sessions yet,
/// starting from Idle and then letting seven phases run out walks the
/// engine through Work, ShortBreak, Work, ShortBreak, Work, ShortBreak,
/// Work, LongBreak, and four completed Work phases are on record at the
/// end. The clock values of the individual steps do not matter.
pub proof fn lemma_work_break_cycle(
    t: PomodoroTimer,
    n0: u64,
    n1: u64,
    n2: u64,
    n3: u64,
    n4: u64,
    n5: u64,
    n6: u64,
    n7: u64,
)
    requires
        t.wf(),
        t.state == PomodoroState::Idle,
        t.completed_work_sessions == 0,
        t.long_break_interval == 4,
    ensures
        ({
            let s0 = t.spec_start(n0);
            let s1 = s0.spec_next_state(n1);
            let s2 = s1.spec_next_state(n2);
            let s3 = s2.spec_next_state(n3);
            let s4 = s3.spec_next_state(n4);
            let s5 = s4.spec_next_state(n5);
            let s6 = s5.spec_next_state(n6);
            let s7 = s6.spec_next_state(n7);
            &&& s0.state == PomodoroState::Work
            &&& s1.state == PomodoroState::ShortBreak
            &&& s2.state == PomodoroState::Work
            &&& s3.state == PomodoroState::ShortBreak
            &&& s4.state == PomodoroState::Work
            &&& s5.state == PomodoroState::ShortBreak
            &&& s6.state == PomodoroState::Work
            &&& s7.state == PomodoroState::LongBreak
            &&& s7.completed_work_sessions == 4
        }),
{
    let s0 = t.spec_start(n0);
    assert(s0.state == PomodoroState::Work);
    let s1 = s0.spec_next_state(n1);
    assert(s1.state == PomodoroState::ShortBreak);
    let s2 = s1.spec_next_state(n2);
    assert(s2.state == PomodoroState::Work);
    assert(s2.completed_work_sessions == 1);
    assert(s2.long_break_interval == 4);
    let s3 = s2.spec_next_state(n3);
    assert(s3.completed_work_sessions == 2);
    assert(2 as int % 4 as int == 2);
    assert(s3.state == PomodoroState::ShortBreak);
    let s4 = s3.spec_next_state(n4);
    assert(s4.state == PomodoroState::Work);
    assert(s4.completed_work_sessions == 2);
    assert(s4.long_break_interval == 4);
    let s5 = s4.spec_next_state(n5);
    assert(s5.completed_work_sessions == 3);
    assert(3 as int % 4 as int == 3);
    assert(s5.state == PomodoroState::ShortBreak);
    let s6 = s5.spec_next_state(n6);
    assert(s6.state == PomodoroState::Work);
    assert(s6.completed_work_sessions == 3);
    assert(s6.long_break_interval == 4);
    let s7 = s6.spec_next_state(n7);
    assert(s7.completed_work_sessions == 4);
    assert(4 as int % 4 as int == 0);
    assert(s7.state == PomodoroState::LongBreak);
}

/// Law: setting the Work length to ten minutes and then starting from Idle
/// leaves exactly ten minutes on the clock when it is read at the very
/// moment the phase began — at most ten minutes, and more than ten minutes
/// less one 50 ms tick.
pub proof fn lemma_set_work_then_start(t: PomodoroTimer, now: u64)
    requires
        t.wf(),
        t.state == PomodoroState::Idle,
    ensures
        ({
            let configured = PomodoroTimer { work_duration: (10 * MINUTE_MS) as u64, ..t };
            let started = configured.spec_start(now);
            &&& started.spec_remaining(now) == 10 * MINUTE_MS
            &&& started.spec_remaining(now) <= 10 * MINUTE_MS
            &&& started.spec_remaining(now) > 10 * MINUTE_MS - 50
        }),
{
}

} // verus!

