use git_timer::commands::{commit_with_timer, show_status, start_timer, status_line_at, CommitInvocation};
use git_timer::errors::TimerError;
use git_timer::timer::{TimerData, Timestamp};

fn ts(year: i32, month: u8, day: u8, hour: u8, minute: u8, second: u8, offset_minutes: i32) -> Timestamp {
    Timestamp { year, month, day, hour, minute, second, offset_minutes }
}

#[test]
fn start_on_fresh_record() {
    // fresh repository, no state file: start foo
    let mut rec = TimerData::new();
    let msg = start_timer(&mut rec, Some(String::from("foo"))).expect("start must succeed");
    assert_eq!(rec.name, Some(String::from("foo")));
    assert!(rec.start.is_some());
    assert_eq!(rec.end, None);
    assert!(rec.is_running());
    assert!(msg.starts_with("git-timer: Started timer at "));
    // the report carries an HH:MM:SS reading
    assert_eq!(msg.len(), "git-timer: Started timer at ".len() + 8);
}

#[test]
fn status_right_after_start_reads_zero() {
    let mut rec = TimerData::new();
    start_timer(&mut rec, Some(String::from("foo"))).unwrap();
    let now = rec.start.unwrap();
    assert_eq!(
        status_line_at(&rec, &now),
        "Timer has been running for 0 minutes and 0 seconds"
    );
}

#[test]
fn status_reports_live_elapsed_time() {
    // a timer started 125 seconds ago reads 2 minutes 5 seconds
    let start = ts(2024, 1, 15, 10, 0, 0, 0);
    let rec = TimerData { name: Some(String::from("foo")), start: Some(start), end: None };
    let now = ts(2024, 1, 15, 10, 2, 5, 0);
    assert_eq!(
        status_line_at(&rec, &now),
        "Timer has been running for 2 minutes and 5 seconds"
    );
}

#[test]
fn status_reports_completed_time() {
    let rec = TimerData {
        name: None,
        start: Some(ts(2024, 1, 15, 10, 0, 0, 0)),
        end: Some(ts(2024, 1, 15, 10, 2, 5, 0)),
    };
    let any_now = ts(2030, 1, 1, 0, 0, 0, 0);
    assert_eq!(
        status_line_at(&rec, &any_now),
        "Timer has completed after 2 minutes and 5 seconds"
    );
}

#[test]
fn status_idle() {
    let rec = TimerData::new();
    assert_eq!(show_status(&rec), "No timer running.");
}

#[test]
fn status_does_not_change_the_record() {
    let rec = TimerData {
        name: Some(String::from("foo")),
        start: Some(ts(2024, 1, 15, 10, 0, 0, 0)),
        end: Some(ts(2024, 1, 15, 10, 2, 5, 0)),
    };
    let before = rec.save();
    let first = show_status(&rec);
    let second = show_status(&rec);
    assert_eq!(first, second);
    assert_eq!(rec.save(), before);
}

#[test]
fn start_while_running_is_refused() {
    // the original start and name stay untouched
    let start = ts(2024, 1, 15, 10, 0, 0, 0);
    let mut rec = TimerData { name: Some(String::from("foo")), start: Some(start), end: None };
    let r = start_timer(&mut rec, Some(String::from("bar")));
    assert_eq!(r, Err(TimerError::AlreadyRunning));
    assert_eq!(rec.name, Some(String::from("foo")));
    assert_eq!(rec.start, Some(start));
    assert_eq!(rec.end, None);
}

#[test]
fn commit_on_idle_record_is_refused() {
    let mut rec = TimerData::new();
    let r = commit_with_timer(Some("msg"), &mut rec);
    assert!(matches!(r, Err(TimerError::NoActiveTimer)));
    assert_eq!(rec.start, None);
    assert_eq!(rec.end, None);
}

#[test]
fn commit_with_message_appends_the_footer() {
    // stopped record: the recorded 125 second span feeds the footer
    let mut rec = TimerData {
        name: None,
        start: Some(ts(2024, 1, 15, 10, 0, 0, 0)),
        end: Some(ts(2024, 1, 15, 10, 2, 5, 0)),
    };
    let plan = commit_with_timer(Some("msg"), &mut rec).unwrap();
    assert!(plan.reused_previous);
    match plan.invocation {
        CommitInvocation::Message(full) => {
            assert_eq!(full, "msg\n\n[Timer: 2 minutes 5 seconds]");
        },
        CommitInvocation::Template(_) => panic!("expected a message invocation"),
    }
}

#[test]
fn commit_without_message_builds_a_template() {
    let mut rec = TimerData {
        name: None,
        start: Some(ts(2024, 1, 15, 10, 0, 0, 0)),
        end: Some(ts(2024, 1, 15, 10, 2, 5, 0)),
    };
    let plan = commit_with_timer(None, &mut rec).unwrap();
    match plan.invocation {
        CommitInvocation::Template(contents) => {
            assert_eq!(contents, "\n\n# Timer: 2 minutes 5 seconds\n#\n");
        },
        CommitInvocation::Message(_) => panic!("expected a template invocation"),
    }
}

#[test]
fn commit_stops_a_running_timer() {
    let start = ts(2024, 1, 15, 10, 0, 0, 0);
    let mut rec = TimerData { name: Some(String::from("foo")), start: Some(start), end: None };
    let plan = commit_with_timer(Some("msg"), &mut rec).unwrap();
    assert!(!plan.reused_previous);
    assert_eq!(rec.start, Some(start));
    assert_eq!(rec.name, Some(String::from("foo")));
    assert!(rec.end.is_some());
    assert!(!rec.is_running());
}

#[test]
fn failed_commit_timing_is_reused_not_restamped() {
    // after a failed git step the record stays stopped on disk; a second
    // commit reuses the recorded end instead of stamping a later one
    let start = ts(2024, 1, 15, 10, 0, 0, 0);
    let mut rec = TimerData { name: None, start: Some(start), end: None };
    let first = commit_with_timer(Some("msg"), &mut rec).unwrap();
    assert!(!first.reused_previous);
    let stamped_end = rec.end;
    // the caller would see git fail here and keep the file
    let second = commit_with_timer(Some("msg"), &mut rec).unwrap();
    assert!(second.reused_previous);
    assert_eq!(rec.end, stamped_end);
    assert_eq!(rec.start, Some(start));
}

#[test]
fn failed_commit_retry_survives_persistence() {
    // stop a running timer, persist it as the caller would before git,
    // reload it as a fresh process would, and retry the commit
    let start = ts(2024, 1, 15, 10, 0, 0, 0);
    let mut rec = TimerData { name: Some(String::from("foo")), start: Some(start), end: None };
    let first = commit_with_timer(Some("msg"), &mut rec).unwrap();
    assert!(!first.reused_previous);
    let text = rec.save();
    let mut reloaded = TimerData::load(Some(&text)).unwrap();
    assert_eq!(reloaded.end, rec.end);
    let second = commit_with_timer(Some("msg"), &mut reloaded).unwrap();
    assert!(second.reused_previous);
    assert_eq!(reloaded.end, rec.end);
    assert_eq!(reloaded.start, Some(start));
    assert_eq!(reloaded.name, Some(String::from("foo")));
}
