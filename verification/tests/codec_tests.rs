use git_timer::errors::TimerError;
use git_timer::timer::{TimerData, Timestamp};

fn ts(year: i32, month: u8, day: u8, hour: u8, minute: u8, second: u8, offset_minutes: i32) -> Timestamp {
    Timestamp { year, month, day, hour, minute, second, offset_minutes }
}

fn assert_round_trip(rec: &TimerData) {
    let text = rec.save();
    let back = TimerData::load(Some(&text)).expect("saved record must load");
    assert_eq!(back.name, rec.name);
    assert_eq!(back.start, rec.start);
    assert_eq!(back.end, rec.end);
}

#[test]
fn save_produces_the_documented_text() {
    let rec = TimerData {
        name: Some(String::from("foo")),
        start: Some(ts(2024, 1, 15, 10, 30, 0, 60)),
        end: None,
    };
    assert_eq!(
        rec.save(),
        "{\n  \"name\": \"foo\",\n  \"start\": \"+002024-01-15T10:30:00+01:00\",\n  \"end\": null\n}"
    );
}

#[test]
fn save_idle_record() {
    assert_eq!(
        TimerData::new().save(),
        "{\n  \"name\": null,\n  \"start\": null,\n  \"end\": null\n}"
    );
}

#[test]
fn round_trip_plain() {
    assert_round_trip(&TimerData {
        name: Some(String::from("foo")),
        start: Some(ts(2024, 1, 15, 10, 30, 0, 60)),
        end: Some(ts(2024, 1, 15, 11, 0, 0, 60)),
    });
}

#[test]
fn round_trip_unicode_name() {
    assert_round_trip(&TimerData {
        name: Some(String::from("h\u{e9}llo \u{2713} \u{1f980}")),
        start: Some(ts(2024, 6, 1, 0, 0, 0, -330)),
        end: None,
    });
}

#[test]
fn round_trip_name_needing_escapes() {
    assert_round_trip(&TimerData {
        name: Some(String::from("a\"b\\c\nd")),
        start: None,
        end: None,
    });
}

#[test]
fn round_trip_negative_year_and_offsets() {
    assert_round_trip(&TimerData {
        name: None,
        start: Some(ts(-44, 3, 15, 12, 0, 0, 0)),
        end: Some(ts(2024, 2, 29, 23, 59, 59, 1439)),
    });
}

#[test]
fn round_trip_idle() {
    assert_round_trip(&TimerData::new());
}

#[test]
fn load_absent_file_gives_idle() {
    let rec = TimerData::load(None).unwrap();
    assert_eq!(rec.name, None);
    assert_eq!(rec.start, None);
    assert_eq!(rec.end, None);
}

#[test]
fn load_rejects_malformed_text() {
    for bad in [
        "",
        "{}",
        "not json at all",
        "{\n  \"name\": null,\n  \"start\": null,\n  \"end\": null\n}x",
        "{\n  \"name\": null,\n  \"start\": null,\n  \"end\": null",
        "{\n  \"name\": \"unterminated,\n  \"start\": null,\n  \"end\": null\n}",
        "{\n  \"name\": \"a\\x\",\n  \"start\": null,\n  \"end\": null\n}",
    ] {
        assert!(matches!(TimerData::load(Some(bad)), Err(TimerError::CorruptState)), "input: {:?}", bad);
    }
}

#[test]
fn load_rejects_invalid_dates() {
    // month 13
    let bad_month =
        "{\n  \"name\": null,\n  \"start\": \"+002024-13-01T00:00:00+00:00\",\n  \"end\": null\n}";
    // February 30th
    let bad_day =
        "{\n  \"name\": null,\n  \"start\": \"+002024-02-30T00:00:00+00:00\",\n  \"end\": null\n}";
    // hour 24
    let bad_hour =
        "{\n  \"name\": null,\n  \"start\": \"+002024-01-01T24:00:00+00:00\",\n  \"end\": null\n}";
    for bad in [bad_month, bad_day, bad_hour] {
        assert!(matches!(TimerData::load(Some(bad)), Err(TimerError::CorruptState)));
    }
}

#[test]
fn load_rejects_end_without_start() {
    let bad =
        "{\n  \"name\": null,\n  \"start\": null,\n  \"end\": \"+002024-01-01T00:00:00+00:00\"\n}";
    assert!(matches!(TimerData::load(Some(bad)), Err(TimerError::CorruptState)));
}

#[test]
fn load_rejects_end_before_start() {
    let bad = "{\n  \"name\": null,\n  \"start\": \"+002024-01-02T00:00:00+00:00\",\n  \"end\": \"+002024-01-01T00:00:00+00:00\"\n}";
    assert!(matches!(TimerData::load(Some(bad)), Err(TimerError::CorruptState)));
}

#[test]
fn load_accepts_handwritten_valid_text() {
    let text = "{\n  \"name\": \"work\",\n  \"start\": \"+002024-01-15T10:30:00+01:00\",\n  \"end\": \"+002024-01-15T10:32:05+01:00\"\n}";
    let rec = TimerData::load(Some(text)).unwrap();
    assert_eq!(rec.name, Some(String::from("work")));
    assert_eq!(rec.start, Some(ts(2024, 1, 15, 10, 30, 0, 60)));
    assert_eq!(rec.end, Some(ts(2024, 1, 15, 10, 32, 5, 60)));
    assert_eq!(rec.calculate_duration(), Some((2, 5)));
}
