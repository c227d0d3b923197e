use countdown_widget::config_store::Countdown;
use countdown_widget::datetime::parse_datetime;
use countdown_widget::format::format_message;
use countdown_widget::schedule::run_schedule;

fn record(title: &str, datetime: &str, enabled: bool) -> Countdown {
    Countdown { title: title.to_string(), datetime: datetime.to_string(), enabled }
}

#[test]
fn sorted_ascending_by_target() {
    let records = vec![
        record("c", "2031-01-01 00:00:00", true),
        record("a", "2029-01-01 00:00:00", true),
        record("b", "2030-01-01 00:00:00", true),
    ];
    let (lines, skipped) = run_schedule(&records, 0);
    assert!(skipped.is_empty());
    let titles: Vec<&str> = lines.iter().map(|l| l.title.as_str()).collect();
    assert_eq!(titles, ["a", "b", "c"]);
    for w in lines.windows(2) {
        assert!(w[0].remaining_seconds <= w[1].remaining_seconds);
    }
}

#[test]
fn equal_targets_keep_original_order() {
    let records = vec![
        record("first", "2030-06-01 12:00:00", true),
        record("early", "2029-01-01 00:00:00", true),
        record("second", "2030-06-01 12:00:00", true),
        record("third", "2030-06-01 12:00:00", true),
    ];
    let (lines, _) = run_schedule(&records, 0);
    let titles: Vec<&str> = lines.iter().map(|l| l.title.as_str()).collect();
    assert_eq!(titles, ["early", "first", "second", "third"]);
}

#[test]
fn disabled_records_are_left_out() {
    let records = vec![
        record("on", "2030-01-01 00:00:00", true),
        record("off", "2029-01-01 00:00:00", false),
    ];
    let (lines, skipped) = run_schedule(&records, 0);
    assert_eq!(lines.len(), 1);
    assert_eq!(lines[0].title, "on");
    // A disabled record is not a parse failure: no diagnostic.
    assert!(skipped.is_empty());
}

#[test]
fn bad_datetime_is_skipped_with_diagnostic() {
    let records = vec![
        record("good", "2030-01-01 00:00:00", true),
        record("bad", "2030-02-30 00:00:00", true),
        record("worse", "soon", true),
    ];
    let (lines, skipped) = run_schedule(&records, 0);
    assert_eq!(lines.len(), 1);
    assert_eq!(lines[0].title, "good");
    assert_eq!(skipped, ["bad", "worse"]);
}

#[test]
fn boundary_86400_renders_sub_day_band() {
    let target = parse_datetime("2099-01-01 00:00:00").unwrap();
    let now_ms = (target - 86_400) * 1000;
    let records = vec![record("T", "2099-01-01 00:00:00", true)];
    let (lines, _) = run_schedule(&records, now_ms);
    assert_eq!(lines[0].remaining_seconds, 86_400);
    assert_eq!(lines[0].message, "T: There are 00:00:00.000 secs left.");
    assert!(!lines[0].notify);
}

#[test]
fn boundary_86401_renders_day_band() {
    let target = parse_datetime("2099-01-01 00:00:00").unwrap();
    let now_ms = (target - 86_401) * 1000;
    let records = vec![record("T", "2099-01-01 00:00:00", true)];
    let (lines, _) = run_schedule(&records, now_ms);
    assert_eq!(lines[0].remaining_seconds, 86_401);
    assert_eq!(lines[0].message, "T: There are 1 days, 00:00:01 secs left.");
}

#[test]
fn boundary_zero_notifies_once_per_tick() {
    let target = parse_datetime("2099-01-01 00:00:00").unwrap();
    let now_ms = target * 1000;
    let records = vec![
        record("hit", "2099-01-01 00:00:00", true),
        record("later", "2099-06-01 00:00:00", true),
    ];
    let (lines, _) = run_schedule(&records, now_ms);
    assert_eq!(lines[0].message, "hit: Now is the time!");
    let notifying: Vec<&str> =
        lines.iter().filter(|l| l.notify).map(|l| l.title.as_str()).collect();
    assert_eq!(notifying, ["hit"]);
}

#[test]
fn boundary_minus_one_renders_ago_band() {
    let target = parse_datetime("2099-01-01 00:00:00").unwrap();
    let now_ms = (target + 1) * 1000;
    let records = vec![record("T", "2099-01-01 00:00:00", true)];
    let (lines, _) = run_schedule(&records, now_ms);
    assert_eq!(lines[0].remaining_seconds, -1);
    assert_eq!(lines[0].message, "T: The datetime was 1 seconds ago.");
    assert!(!lines[0].notify);
}

#[test]
fn launch_example_a_day_ahead() {
    // One record a day ahead of the clock. Exactly 86400 seconds out is
    // the last moment of the sub-day band, so the message carries the
    // zero wall-clock remainder; one second earlier it tips into the day
    // band and names the day.
    let records = vec![record("Launch", "2099-01-01 00:00:00", true)];
    let now_ms = parse_datetime("2098-12-31 00:00:00").unwrap() * 1000;
    let (lines, _) = run_schedule(&records, now_ms);
    assert_eq!(lines.len(), 1);
    assert!(lines[0].message.contains("Launch"));
    assert!(lines[0].message.contains("00:00:00"));

    let (lines, _) = run_schedule(&records, now_ms - 1000);
    assert!(lines[0].message.contains("Launch"));
    assert!(lines[0].message.contains("1 days"));
    assert!(lines[0].message.contains("00:00:01"));
}

#[test]
fn day_band_counts_total_days() {
    let target = parse_datetime("2099-01-01 00:00:00").unwrap();
    // 3 days, 4 hours, 5 minutes, 6 seconds out.
    let now_ms = (target - (3 * 86_400 + 4 * 3600 + 5 * 60 + 6)) * 1000;
    let records = vec![record("far", "2099-01-01 00:00:00", true)];
    let (lines, _) = run_schedule(&records, now_ms);
    assert_eq!(lines[0].message, "far: There are 3 days, 04:05:06 secs left.");
}

#[test]
fn sub_day_band_has_millisecond_precision() {
    assert_eq!(
        format_message("t", 2 * 3600_000 + 3 * 60_000 + 4_000 + 567),
        "t: There are 02:03:04.567 secs left."
    );
    assert_eq!(format_message("t", 1000), "t: There are 00:00:01.000 secs left.");
}

#[test]
fn zero_band_covers_sub_second_remainders() {
    // Anything below one whole second on either side is the moment
    // itself.
    assert_eq!(format_message("t", 999), "t: Now is the time!");
    assert_eq!(format_message("t", 0), "t: Now is the time!");
    assert_eq!(format_message("t", -999), "t: Now is the time!");
    assert_eq!(format_message("t", -1000), "t: The datetime was 1 seconds ago.");
}

#[test]
fn ago_band_counts_whole_seconds() {
    assert_eq!(format_message("t", -90_500), "t: The datetime was 90 seconds ago.");
}

#[test]
fn empty_title_renders_blank_label() {
    let records = vec![record("", "2099-01-01 00:00:00", true)];
    let now_ms = parse_datetime("2098-12-31 23:59:30").unwrap() * 1000;
    let (lines, _) = run_schedule(&records, now_ms);
    assert_eq!(lines[0].message, ": There are 00:00:30.000 secs left.");
}
