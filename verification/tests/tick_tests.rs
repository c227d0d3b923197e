use countdown_widget::config_store::{ConfigStore, CountDownData, Countdown, HotReload};
use countdown_widget::pomodoro::{PomodoroState, PomodoroTimer};
use countdown_widget::render::Renderer;
use countdown_widget::tick::run_tick;

fn record(title: &str, datetime: &str, enabled: bool) -> Countdown {
    Countdown { title: title.to_string(), datetime: datetime.to_string(), enabled }
}

#[test]
fn idle_tick_prints_status_and_count() {
    let mut timer = PomodoroTimer::new();
    let mut renderer = Renderer::new();
    let mut paused = false;
    let records: Vec<Countdown> = Vec::new();
    let out = run_tick(&mut timer, &mut renderer, &mut paused, None, &records, 0, 0);
    assert!(!out.skipped_tick);
    assert_eq!(out.erase_lines, 0);
    assert_eq!(
        out.status_lines,
        ["Pomodoro is not running", "Completed work sessions: 0"]
    );
    assert!(out.countdowns.is_empty());
    assert!(!out.phase_ended);
    assert_eq!(renderer.previous_line_count, 2);

    // The next tick erases exactly what the previous one printed.
    let out = run_tick(&mut timer, &mut renderer, &mut paused, None, &records, 50, 50);
    assert_eq!(out.erase_lines, 2);
}

#[test]
fn work_ten_then_start_leaves_ten_minutes() {
    let mut timer = PomodoroTimer::new();
    let mut renderer = Renderer::new();
    let mut paused = false;
    let records: Vec<Countdown> = Vec::new();
    let work = String::from("work 10");
    run_tick(&mut timer, &mut renderer, &mut paused, Some(&work), &records, 0, 0);
    let start = String::from("start");
    run_tick(&mut timer, &mut renderer, &mut paused, Some(&start), &records, 50, 50);
    let remaining = timer.remaining_time(50).unwrap();
    assert!(remaining <= 10 * 60 * 1000);
    assert!(remaining > 10 * 60 * 1000 - 50);
}

#[test]
fn pause_skips_everything_until_resume() {
    let mut timer = PomodoroTimer::new();
    let mut renderer = Renderer::new();
    let mut paused = false;
    let records = vec![record("t", "2099-01-01 00:00:00", true)];
    run_tick(&mut timer, &mut renderer, &mut paused, None, &records, 0, 0);
    assert_eq!(renderer.previous_line_count, 3);

    let pause = String::from("pause");
    let out = run_tick(&mut timer, &mut renderer, &mut paused, Some(&pause), &records, 50, 50);
    assert!(paused);
    assert!(out.skipped_tick);
    assert_eq!(out.erase_lines, 0);
    assert!(out.status_lines.is_empty());
    assert!(out.countdowns.is_empty());
    // The repaint state is untouched while paused.
    assert_eq!(renderer.previous_line_count, 3);

    // Commands still land while paused.
    let work = String::from("work 1");
    run_tick(&mut timer, &mut renderer, &mut paused, Some(&work), &records, 100, 100);
    assert_eq!(timer.work_duration, 60_000);

    let resume = String::from("resume");
    let out = run_tick(&mut timer, &mut renderer, &mut paused, Some(&resume), &records, 150, 150);
    assert!(!paused);
    assert!(!out.skipped_tick);
    assert_eq!(out.erase_lines, 3);
}

#[test]
fn phase_end_advances_and_keeps_frame() {
    let mut timer = PomodoroTimer::new();
    let mut renderer = Renderer::new();
    let mut paused = false;
    let records = vec![record("t", "2099-01-01 00:00:00", true)];

    let work = String::from("work 0");
    run_tick(&mut timer, &mut renderer, &mut paused, Some(&work), &records, 0, 0);
    let start = String::from("start");
    // Starting a zero-length phase: this same tick sees no time left,
    // ends the phase and advances into the first break.
    let out = run_tick(&mut timer, &mut renderer, &mut paused, Some(&start), &records, 50, 50);
    assert!(out.phase_ended);
    assert_eq!(timer.state, PomodoroState::ShortBreak);
    assert_eq!(timer.completed_work_sessions, 1);
    assert_eq!(
        out.status_lines,
        [
            "Pomodoro state: Work, remaining: 00:00",
            "The current phase is over!",
            "Completed work sessions: 1",
            "Enter a command (start/short/long) to begin the next phase",
        ]
    );
    // The countdown block is held back so the summary stays visible.
    assert!(out.countdowns.is_empty());
    assert_eq!(renderer.previous_line_count, 4);

    // The following tick leaves the summary on screen: it erases nothing.
    let out = run_tick(&mut timer, &mut renderer, &mut paused, None, &records, 100, 100);
    assert_eq!(out.erase_lines, 0);
    assert!(!out.phase_ended);
    assert_eq!(out.countdowns.len(), 1);
}

#[test]
fn running_status_line_counts_down() {
    let mut timer = PomodoroTimer::new();
    let mut renderer = Renderer::new();
    let mut paused = false;
    let records: Vec<Countdown> = Vec::new();
    let start = String::from("start");
    run_tick(&mut timer, &mut renderer, &mut paused, Some(&start), &records, 0, 0);
    let out = run_tick(&mut timer, &mut renderer, &mut paused, None, &records, 90_000, 90_000);
    assert_eq!(out.status_lines[0], "Pomodoro state: Work, remaining: 23:30");
}

#[test]
fn idle_status_after_completion_shows_elapsed() {
    let mut timer = PomodoroTimer::new();
    let mut renderer = Renderer::new();
    let mut paused = false;
    let records: Vec<Countdown> = Vec::new();
    let start = String::from("start");
    run_tick(&mut timer, &mut renderer, &mut paused, Some(&start), &records, 0, 0);
    let next = String::from("next");
    run_tick(&mut timer, &mut renderer, &mut paused, Some(&next), &records, 1000, 1000);
    let stop = String::from("stop");
    run_tick(&mut timer, &mut renderer, &mut paused, Some(&stop), &records, 2000, 2000);
    let out = run_tick(&mut timer, &mut renderer, &mut paused, None, &records, 62_000, 62_000);
    assert_eq!(
        out.status_lines[0],
        "Pomodoro is not running; time since last completion: 01:01"
    );
}

#[test]
fn unknown_command_is_reported_not_fatal() {
    let mut timer = PomodoroTimer::new();
    let mut renderer = Renderer::new();
    let mut paused = false;
    let records: Vec<Countdown> = Vec::new();
    let nonsense = String::from("frobnicate 7");
    let out = run_tick(&mut timer, &mut renderer, &mut paused, Some(&nonsense), &records, 0, 0);
    assert!(out.unknown_command);
    assert!(!out.skipped_tick);
    assert_eq!(timer.state, PomodoroState::Idle);
}

#[test]
fn interval_zero_is_ignored() {
    let mut timer = PomodoroTimer::new();
    let mut renderer = Renderer::new();
    let mut paused = false;
    let records: Vec<Countdown> = Vec::new();
    let cmd = String::from("interval 0");
    run_tick(&mut timer, &mut renderer, &mut paused, Some(&cmd), &records, 0, 0);
    assert_eq!(timer.long_break_interval, 4);
    let cmd = String::from("interval 2");
    run_tick(&mut timer, &mut renderer, &mut paused, Some(&cmd), &records, 0, 0);
    assert_eq!(timer.long_break_interval, 2);
}

#[test]
fn bad_records_reported_each_tick() {
    let mut timer = PomodoroTimer::new();
    let mut renderer = Renderer::new();
    let mut paused = false;
    let records = vec![record("broken", "tomorrow-ish", true)];
    let out = run_tick(&mut timer, &mut renderer, &mut paused, None, &records, 0, 0);
    assert_eq!(out.skipped_titles, ["broken"]);
    let out = run_tick(&mut timer, &mut renderer, &mut paused, None, &records, 50, 50);
    assert_eq!(out.skipped_titles, ["broken"]);
}

#[test]
fn snapshot_is_a_deep_copy() {
    let store = ConfigStore::new(CountDownData {
        countdown: vec![record("a", "2030-01-01 00:00:00", true)],
    });
    let snap = store.get_config();
    assert_eq!(snap.countdown.len(), 1);
    assert_eq!(snap.countdown[0].title, "a");
    let snap2 = store.get_config();
    assert_eq!(snap2.countdown[0].datetime, "2030-01-01 00:00:00");
}

struct ScriptedSource {
    store: ConfigStore,
    documents: Vec<Option<CountDownData>>,
}

impl HotReload for ScriptedSource {
    fn reload(&mut self) -> Result<(), ()> {
        let decoded = if self.documents.is_empty() { None } else { self.documents.remove(0) };
        let ok = decoded.is_some();
        self.store.apply_reload(decoded);
        if ok {
            Ok(())
        } else {
            Err(())
        }
    }
}

#[test]
fn reload_task_survives_bad_documents() {
    let mut source = ScriptedSource {
        store: ConfigStore::new(CountDownData {
            countdown: vec![record("initial", "2030-01-01 00:00:00", true)],
        }),
        // Two undecodable documents, then a good one.
        documents: vec![
            None,
            None,
            Some(CountDownData { countdown: vec![record("fresh", "2032-05-05 05:05:05", true)] }),
        ],
    };
    assert_eq!(source.reload(), Err(()));
    assert_eq!(source.store.get_config().countdown[0].title, "initial");
    assert_eq!(source.reload(), Err(()));
    assert_eq!(source.store.get_config().countdown[0].title, "initial");
    assert_eq!(source.reload(), Ok(()));
    assert_eq!(source.store.get_config().countdown[0].title, "fresh");
}

#[test]
fn reload_failure_keeps_previous_list() {
    let mut store = ConfigStore::new(CountDownData {
        countdown: vec![record("keep", "2030-01-01 00:00:00", true)],
    });
    // A document that failed to decode arrives as None: nothing changes.
    let replaced = store.apply_reload(None);
    assert!(!replaced);
    assert_eq!(store.get_config().countdown[0].title, "keep");

    let replaced = store.apply_reload(Some(CountDownData {
        countdown: vec![record("new", "2031-01-01 00:00:00", false)],
    }));
    assert!(replaced);
    let snap = store.get_config();
    assert_eq!(snap.countdown.len(), 1);
    assert_eq!(snap.countdown[0].title, "new");
    assert!(!snap.countdown[0].enabled);
}
