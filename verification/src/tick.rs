//! One tick of the main loop, as a pure decision step.
//!
//! The surrounding loop only performs what this module decides: it hands
//! in the pending command line, the configuration snapshot and the two
//! clocks, and gets back exactly what to erase, what to print, which
//! notifications to fire, and the updated engine, pause flag and repaint
//! state. A tick taken while paused decides nothing beyond the command
//! dispatch itself.

use vstd::prelude::*;
use vstd::string::StringExecFns;
use crate::command::{UserCommand, parse_command, spec_parse_command};
use crate::config_store::Countdown;
use crate::pomodoro::{PomodoroState, PomodoroTimer};
use crate::render::Renderer;
use crate::schedule::{CountdownLine, build_entries, schedule_lines, skipped_list, run_schedule,
    NOW_MS_BOUND};
use crate::textfmt::{dec_digits, zero_pad2, u64_to_dec, zero_pad2_str};

verus! {

/// The engine after one command. Engine commands go to the corresponding
/// operation; a duration that would not fit in milliseconds, an interval
/// of zero, and the loop-control and unrecognized commands leave the
/// engine as it is.
pub open spec fn spec_apply_command(t: PomodoroTimer, cmd: UserCommand, now: u64) -> PomodoroTimer {
    match cmd {
        UserCommand::Start => t.spec_start(now),
        UserCommand::Stop => PomodoroTimer { state: PomodoroState::Idle, start_time: None, ..t },
        UserCommand::Short => PomodoroTimer {
            state: PomodoroState::ShortBreak,
            start_time: Some(now),
            last_completed_time: None,
            ..t
        },
        UserCommand::Long => PomodoroTimer {
            state: PomodoroState::LongBreak,
            start_time: Some(now),
            last_completed_time: None,
            ..t
        },
        UserCommand::Next => t.spec_next_state(now),
        UserCommand::WorkDuration(m) => if m * 60000 <= u64::MAX {
            PomodoroTimer { work_duration: (m * 60000) as u64, ..t }
        } else {
            t
        },
        UserCommand::ShortDuration(m) => if m * 60000 <= u64::MAX {
            PomodoroTimer { short_break_duration: (m * 60000) as u64, ..t }
        } else {
            t
        },
        UserCommand::LongDuration(m) => if m * 60000 <= u64::MAX {
            PomodoroTimer { long_break_duration: (m * 60000) as u64, ..t }
        } else {
            t
        },
        UserCommand::Interval(n) => if n >= 1 {
            PomodoroTimer { long_break_interval: n, ..t }
        } else {
            t
        },
        UserCommand::Pause | UserCommand::Resume | UserCommand::Unknown => t,
    }
}

/// The pause flag after one command.
pub open spec fn spec_paused_after(p: bool, cmd: Option<UserCommand>) -> bool {
    match cmd {
        Some(UserCommand::Pause) => true,
        Some(UserCommand::Resume) => false,
        _ => p,
    }
}

/// The engine after an optional command.
pub open spec fn spec_dispatch(t: PomodoroTimer, cmd: Option<UserCommand>, now: u64) -> PomodoroTimer {
    match cmd {
        None => t,
        Some(c) => spec_apply_command(t, c, now),
    }
}

/// Apply one command to the engine.
pub fn apply_command(t: &mut PomodoroTimer, cmd: UserCommand, now: u64)
    requires
        old(t).wf(),
    ensures
        final(t).wf(),
        *final(t) == spec_apply_command(*old(t), cmd, now),
{
    match cmd {
        UserCommand::Start => t.start(now),
        UserCommand::Stop => t.stop(),
        UserCommand::Short => t.set_state(PomodoroState::ShortBreak, now),
        UserCommand::Long => t.set_state(PomodoroState::LongBreak, now),
        UserCommand::Next => t.next_state(now),
        UserCommand::WorkDuration(m) => {
            if m <= u64::MAX / 60000 {
                t.set_work_duration(m);
            }
        },
        UserCommand::ShortDuration(m) => {
            if m <= u64::MAX / 60000 {
                t.set_short_break_duration(m);
            }
        },
        UserCommand::LongDuration(m) => {
            if m <= u64::MAX / 60000 {
                t.set_long_break_duration(m);
            }
        },
        UserCommand::Interval(n) => {
            if n >= 1 {
                t.set_long_break_interval(n);
            }
        },
        UserCommand::Pause => {},
        UserCommand::Resume => {},
        UserCommand::Unknown => {},
    }
}

/// The display name of a phase.
pub open spec fn state_name(s: PomodoroState) -> Seq<char> {
    match s {
        PomodoroState::Idle => "Idle"@,
        PomodoroState::Work => "Work"@,
        PomodoroState::ShortBreak => "ShortBreak"@,
        PomodoroState::LongBreak => "LongBreak"@,
    }
}

/// The display name of a phase.
pub fn state_name_str(s: PomodoroState) -> (r: &'static str)
    ensures
        r@ == state_name(s),
{
    match s {
        PomodoroState::Idle => "Idle",
        PomodoroState::Work => "Work",
        PomodoroState::ShortBreak => "ShortBreak",
        PomodoroState::LongBreak => "LongBreak",
    }
}

/// A millisecond count shown as minutes and seconds, `MM:SS`.
pub open spec fn mm_ss(ms: u64) -> Seq<char> {
    let total = ms as int / 1000;
    zero_pad2((total / 60) as nat) + ":"@ + zero_pad2((total % 60) as nat)
}

/// A millisecond count shown as minutes and seconds, `MM:SS`.
pub fn mm_ss_str(ms: u64) -> (s: String)
    ensures
        s@ == mm_ss(ms),
{
    let total: u64 = ms / 1000;
    let mut s = zero_pad2_str(total / 60);
    s.append(":");
    let ss = zero_pad2_str(total % 60);
    s.append(ss.as_str());
    proof {
        assert(s@ =~= mm_ss(ms));
    }
    s
}

/// The Pomodoro status line: the running phase and its remaining time,
/// or the idle notice, with the time since the last completion when one
/// is on record.
pub open spec fn spec_status_line(t: PomodoroTimer, now: u64) -> Seq<char> {
    if t.state == PomodoroState::Idle {
        if t.last_completed_time is Some {
            "Pomodoro is not running; time since last completion: "@ + mm_ss(
                if now >= t.last_completed_time->0 {
                    (now - t.last_completed_time->0) as u64
                } else {
                    0
                },
            )
        } else {
            "Pomodoro is not running"@
        }
    } else {
        "Pomodoro state: "@ + state_name(t.state) + ", remaining: "@ + mm_ss(t.spec_remaining(now))
    }
}

/// The session-count line.
pub open spec fn spec_completed_line(t: PomodoroTimer) -> Seq<char> {
    "Completed work sessions: "@ + dec_digits(t.completed_work_sessions as nat)
}

/// The Pomodoro status line.
pub fn status_line(t: &PomodoroTimer, now: u64) -> (s: String)
    requires
        t.wf(),
    ensures
        s@ == spec_status_line(*t, now),
{
    if matches!(t.state, PomodoroState::Idle) {
        match t.time_since_last_completion(now) {
            Some(since) => {
                let mut s = "Pomodoro is not running; time since last completion: ".to_owned();
                let tail = mm_ss_str(since);
                s.append(tail.as_str());
                proof {
                    assert(s@ =~= spec_status_line(*t, now));
                }
                s
            },
            None => "Pomodoro is not running".to_owned(),
        }
    } else {
        let mut s = "Pomodoro state: ".to_owned();
        s.append(state_name_str(t.state));
        s.append(", remaining: ");
        let rem = match t.remaining_time(now) {
            Some(r) => r,
            None => 0,
        };
        let tail = mm_ss_str(rem);
        s.append(tail.as_str());
        proof {
            assert(s@ =~= spec_status_line(*t, now));
        }
        s
    }
}

/// The session-count line.
pub fn completed_line(t: &PomodoroTimer) -> (s: String)
    ensures
        s@ == spec_completed_line(*t),
{
    let mut s = "Completed work sessions: ".to_owned();
    let n = u64_to_dec(t.completed_work_sessions as u64);
    s.append(n.as_str());
    proof {
        assert(s@ =~= spec_completed_line(*t));
    }
    s
}

/// The status block of one frame: on an ordinary tick the status line and
/// the session count; on the tick that ends a phase, additionally the
/// phase-end notice and the prompt, with the session count taken after
/// the advance.
pub open spec fn spec_status_block(
    t1: PomodoroTimer,
    t2: PomodoroTimer,
    phase_end: bool,
    now: u64,
) -> Seq<Seq<char>> {
    if phase_end {
        seq![
            spec_status_line(t1, now),
            "The current phase is over!"@,
            spec_completed_line(t2),
            "Enter a command (start/short/long) to begin the next phase"@,
        ]
    } else {
        seq![spec_status_line(t1, now), spec_completed_line(t1)]
    }
}

/// Everything one tick decides.
pub struct TickOutcome {
    /// True when the tick was taken paused: nothing below holds anything,
    /// nothing is printed or erased.
    pub skipped_tick: bool,
    /// How many terminal lines to erase before printing.
    pub erase_lines: usize,
    /// The Pomodoro block, printed first.
    pub status_lines: Vec<String>,
    /// One rendered line per scheduled countdown, printed after the
    /// status block; empty on a phase-end tick.
    pub countdowns: Vec<CountdownLine>,
    /// Titles of enabled records whose target failed to parse, reported
    /// outside the repainted frame.
    pub skipped_titles: Vec<String>,
    /// The tick ended the running phase: fire the phase notification and
    /// keep this frame on screen through the next tick.
    pub phase_ended: bool,
    /// The command line was not recognized; report it, never fail.
    pub unknown_command: bool,
}

/// Run one tick: dispatch the pending command, skip everything else while
/// paused, otherwise detect the end of the running phase, advance the
/// engine over it, schedule the countdowns and lay out the frame.
pub fn run_tick(
    timer: &mut PomodoroTimer,
    renderer: &mut Renderer,
    paused: &mut bool,
    command: Option<&String>,
    records: &Vec<Countdown>,
    mono_now_ms: u64,
    wall_now_ms: i64,
) -> (out: TickOutcome)
    requires
        old(timer).wf(),
        -NOW_MS_BOUND <= wall_now_ms <= NOW_MS_BOUND,
        records@.len() <= usize::MAX - 4,
    ensures
        final(timer).wf(),
        ({
            let cmd = match command {
                None => None::<UserCommand>,
                Some(line) => Some(spec_parse_command(line@)),
            };
            let t1 = spec_dispatch(*old(timer), cmd, mono_now_ms);
            let was_paused = spec_paused_after(*old(paused), cmd);
            let phase_end = !was_paused && t1.state != PomodoroState::Idle && t1.spec_remaining(
                mono_now_ms,
            ) == 0;
            let t2 = if phase_end {
                t1.spec_next_state(mono_now_ms)
            } else {
                t1
            };
            &&& *final(paused) == was_paused
            &&& out.unknown_command == (cmd == Some(UserCommand::Unknown))
            &&& out.skipped_tick == was_paused
            &&& if was_paused {
                &&& *final(timer) == t1
                &&& *final(renderer) == *old(renderer)
                &&& out.erase_lines == 0
                &&& out.status_lines@.len() == 0
                &&& out.countdowns@.len() == 0
                &&& out.skipped_titles@.len() == 0
                &&& !out.phase_ended
            } else {
                &&& *final(timer) == t2
                &&& out.phase_ended == phase_end
                &&& out.erase_lines == old(renderer).spec_lines_to_erase()
                &&& out.status_lines@.map_values(|l: String| l@) == spec_status_block(
                    t1,
                    t2,
                    phase_end,
                    mono_now_ms,
                )
                &&& out.countdowns@.map_values(|l: CountdownLine| l@) == if phase_end {
                    Seq::empty()
                } else {
                    schedule_lines(records@.map_values(|c: Countdown| c@), wall_now_ms as int)
                }
                &&& out.skipped_titles@.map_values(|t: String| t@) == skipped_list(
                    records@.map_values(|c: Countdown| c@),
                )
                &&& final(renderer).previous_line_count == out.status_lines@.len()
                    + out.countdowns@.len()
                &&& final(renderer).suppress_next_erase == phase_end
            }
        }),
{
    let mut unknown = false;
    match command {
        None => {},
        Some(line) => {
            let cmd = parse_command(line.as_str());
            match cmd {
                UserCommand::Pause => {
                    *paused = true;
                },
                UserCommand::Resume => {
                    *paused = false;
                },
                UserCommand::Unknown => {
                    unknown = true;
                },
                _ => {},
            }
            apply_command(timer, cmd, mono_now_ms);
        },
    }
    if *paused {
        return TickOutcome {
            skipped_tick: true,
            erase_lines: 0,
            status_lines: Vec::new(),
            countdowns: Vec::new(),
            skipped_titles: Vec::new(),
            phase_ended: false,
            unknown_command: unknown,
        };
    }
    let ghost t1 = *timer;
    let phase_end = match timer.remaining_time(mono_now_ms) {
        Some(r) => r == 0,
        None => false,
    };
    let erase = renderer.lines_to_erase();
    let mut status_lines: Vec<String> = Vec::new();
    let first = status_line(timer, mono_now_ms);
    status_lines.push(first);
    let mut countdowns: Vec<CountdownLine> = Vec::new();
    let mut skipped: Vec<String> = Vec::new();
    if phase_end {
        timer.next_state(mono_now_ms);
        status_lines.push("The current phase is over!".to_owned());
        let done = completed_line(timer);
        status_lines.push(done);
        status_lines.push("Enter a command (start/short/long) to begin the next phase".to_owned());
        // The countdown block is held back this tick, but the per-record
        // diagnostics are still owed.
        let (_, sk) = build_entries(records);
        skipped = sk;
        proof {
            assert(status_lines@.map_values(|l: String| l@) =~= spec_status_block(
                t1,
                *timer,
                true,
                mono_now_ms,
            ));
        }
    } else {
        let done = completed_line(timer);
        status_lines.push(done);
        let (cds, sk) = run_schedule(records, wall_now_ms);
        countdowns = cds;
        skipped = sk;
        proof {
            assert(status_lines@.map_values(|l: String| l@) =~= spec_status_block(
                t1,
                t1,
                false,
                mono_now_ms,
            ));
        }
    }
    let total = status_lines.len() + countdowns.len();
    renderer.frame_done(total, phase_end);
    TickOutcome {
        skipped_tick: false,
        erase_lines: erase,
        status_lines,
        countdowns,
        skipped_titles: skipped,
        phase_ended: phase_end,
        unknown_command: unknown,
    }
}

} // verus!
