use git_timer::timer::{days_from_civil, days_in_month, is_leap_year, TimerData, Timestamp};

fn ts(year: i32, month: u8, day: u8, hour: u8, minute: u8, second: u8, offset_minutes: i32) -> Timestamp {
    Timestamp { year, month, day, hour, minute, second, offset_minutes }
}

#[test]
fn epoch_seconds_matches_known_instants() {
    assert_eq!(ts(1970, 1, 1, 0, 0, 0, 0).epoch_seconds(), 0);
    assert_eq!(ts(2024, 1, 15, 10, 30, 0, 60).epoch_seconds(), 1705311000);
    assert_eq!(ts(2000, 2, 29, 23, 59, 59, -330).epoch_seconds(), 951888599);
}

#[test]
fn days_from_civil_known_dates() {
    assert_eq!(days_from_civil(1970, 1, 1), 0);
    assert_eq!(days_from_civil(1969, 12, 31), -1);
    assert_eq!(days_from_civil(2000, 3, 1), 11017);
    assert_eq!(days_from_civil(1, 1, 1), -719162);
}

#[test]
fn leap_year_rules() {
    assert!(is_leap_year(2024));
    assert!(is_leap_year(2000));
    assert!(!is_leap_year(1900));
    assert!(!is_leap_year(2023));
    assert_eq!(days_in_month(2024, 2), 29);
    assert_eq!(days_in_month(1900, 2), 28);
    assert_eq!(days_in_month(2024, 4), 30);
    assert_eq!(days_in_month(2024, 12), 31);
}

#[test]
fn new_record_is_idle() {
    let r = TimerData::new();
    assert_eq!(r.name, None);
    assert_eq!(r.start, None);
    assert_eq!(r.end, None);
    assert!(!r.is_running());
}

#[test]
fn is_running_depends_on_both_fields() {
    let s = ts(2024, 1, 15, 10, 0, 0, 0);
    let running = TimerData { name: None, start: Some(s), end: None };
    assert!(running.is_running());
    let stopped = TimerData { name: None, start: Some(s), end: Some(ts(2024, 1, 15, 11, 0, 0, 0)) };
    assert!(!stopped.is_running());
}

#[test]
fn stopped_duration_decomposes_exactly() {
    // minutes * 60 + seconds recovers the span, with seconds below 60
    let s = ts(2024, 1, 15, 10, 0, 0, 0);
    for (span, want) in [
        (0i64, (0i64, 0i64)),
        (59, (0, 59)),
        (60, (1, 0)),
        (61, (1, 1)),
        (125, (2, 5)),
        (3600, (60, 0)),
    ] {
        let e = ts(2024, 1, 15, 10, (span / 60) as u8, (span % 60) as u8, 0);
        let rec = TimerData { name: None, start: Some(s), end: Some(e) };
        let got = rec.calculate_duration().unwrap();
        assert_eq!(got, want);
        assert_eq!(got.0 * 60 + got.1, span);
        assert!(0 <= got.1 && got.1 < 60);
    }
}

#[test]
fn duration_crosses_midnight_and_offsets() {
    // 23:59:00+00:00 to 00:01:30+01:00 next day is 90 seconds
    let s = ts(2024, 1, 15, 23, 59, 0, 0);
    let e = ts(2024, 1, 16, 1, 0, 30, 60);
    let rec = TimerData { name: None, start: Some(s), end: Some(e) };
    assert_eq!(rec.calculate_duration(), Some((1, 30)));
}

#[test]
fn running_duration_against_explicit_now() {
    let s = ts(2024, 1, 15, 10, 0, 0, 0);
    let rec = TimerData { name: Some(String::from("foo")), start: Some(s), end: None };
    let now = ts(2024, 1, 15, 10, 2, 5, 0);
    assert_eq!(rec.calculate_duration_at(&now), Some((2, 5)));
}

#[test]
fn backwards_clock_is_clamped_to_zero() {
    let s = ts(2024, 1, 15, 10, 0, 0, 0);
    let rec = TimerData { name: None, start: Some(s), end: None };
    let earlier = ts(2024, 1, 15, 9, 59, 0, 0);
    assert_eq!(rec.calculate_duration_at(&earlier), Some((0, 0)));
}

#[test]
fn idle_record_has_no_duration() {
    let rec = TimerData::new();
    assert_eq!(rec.calculate_duration(), None);
}
