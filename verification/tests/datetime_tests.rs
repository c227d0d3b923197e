use countdown_widget::datetime::parse_datetime;

#[test]
fn epoch_is_zero() {
    assert_eq!(parse_datetime("1970-01-01 00:00:00"), Some(0));
}

#[test]
fn known_timestamps() {
    assert_eq!(parse_datetime("2000-01-01 00:00:00"), Some(946_684_800));
    assert_eq!(parse_datetime("1999-12-31 23:59:59"), Some(946_684_799));
    assert_eq!(parse_datetime("2038-01-19 03:14:07"), Some(2_147_483_647));
    assert_eq!(parse_datetime("1969-12-31 23:59:59"), Some(-1));
}

#[test]
fn range_ends() {
    assert_eq!(parse_datetime("0000-01-01 00:00:00"), Some(-62_167_219_200));
    assert_eq!(parse_datetime("9999-12-31 23:59:59"), Some(253_402_300_799));
}

#[test]
fn one_day_apart() {
    let a = parse_datetime("2098-12-31 00:00:00").unwrap();
    let b = parse_datetime("2099-01-01 00:00:00").unwrap();
    assert_eq!(b - a, 86_400);
}

#[test]
fn leap_years() {
    assert!(parse_datetime("2024-02-29 12:00:00").is_some());
    assert!(parse_datetime("2000-02-29 00:00:00").is_some());
    assert_eq!(parse_datetime("2023-02-29 00:00:00"), None);
    assert_eq!(parse_datetime("1900-02-29 00:00:00"), None);
    let feb29 = parse_datetime("2024-02-29 00:00:00").unwrap();
    let mar01 = parse_datetime("2024-03-01 00:00:00").unwrap();
    assert_eq!(mar01 - feb29, 86_400);
}

#[test]
fn month_lengths() {
    assert!(parse_datetime("2024-04-30 00:00:00").is_some());
    assert_eq!(parse_datetime("2024-04-31 00:00:00"), None);
    assert!(parse_datetime("2024-01-31 00:00:00").is_some());
    assert_eq!(parse_datetime("2024-00-10 00:00:00"), None);
    assert_eq!(parse_datetime("2024-13-01 00:00:00"), None);
    assert_eq!(parse_datetime("2024-05-00 00:00:00"), None);
}

#[test]
fn time_of_day_ranges() {
    assert!(parse_datetime("2024-05-05 23:59:59").is_some());
    assert_eq!(parse_datetime("2024-05-05 24:00:00"), None);
    assert_eq!(parse_datetime("2024-05-05 12:60:00"), None);
    assert_eq!(parse_datetime("2024-05-05 12:00:60"), None);
}

#[test]
fn malformed_shapes() {
    assert_eq!(parse_datetime(""), None);
    assert_eq!(parse_datetime("2024-1-01 00:00:00"), None);
    assert_eq!(parse_datetime("2024-01-01T00:00:00"), None);
    assert_eq!(parse_datetime("2024/01/01 00:00:00"), None);
    assert_eq!(parse_datetime("2024-01-01 00:00:00 "), None);
    assert_eq!(parse_datetime("not a datetime at al"), None);
    assert_eq!(parse_datetime("2024-01-01 00:00:0a"), None);
    assert_eq!(parse_datetime("²024-01-01 00:00:00"), None);
}

#[test]
fn agrees_with_chrono() {
    for s in [
        "1970-01-01 00:00:00",
        "1969-07-20 20:17:40",
        "2024-02-29 23:59:59",
        "2091-07-15 13:45:12",
        "1600-02-29 06:30:00",
        "2400-02-29 00:00:01",
    ] {
        let got = parse_datetime(s).unwrap();
        let want = chrono::NaiveDateTime::parse_from_str(s, "%Y-%m-%d %H:%M:%S")
            .unwrap()
            .and_utc()
            .timestamp();
        assert_eq!(got, want, "datetime {}", s);
    }
}

#[test]
fn rejects_what_chrono_rejects() {
    for s in ["2023-02-29 00:00:00", "2024-04-31 10:00:00", "2024-13-01 00:00:00"] {
        assert_eq!(parse_datetime(s), None);
        assert!(chrono::NaiveDateTime::parse_from_str(s, "%Y-%m-%d %H:%M:%S").is_err());
    }
}
