use git_timer::cli::{parse_args, Command};

fn argv(parts: &[&str]) -> Vec<String> {
    parts.iter().map(|s| String::from(*s)).collect()
}

const USAGE: &str = "usage: git-timer <start [<name>] | status | commit [-m <message>]>";

#[test]
fn parses_start_with_a_name() {
    let cli = parse_args(&argv(&["git-timer", "start", "foo"])).unwrap();
    match cli.command {
        Command::Start { timer_name } => assert_eq!(timer_name, Some(String::from("foo"))),
        _ => panic!("expected start"),
    }
}

#[test]
fn parses_start_without_a_name() {
    let cli = parse_args(&argv(&["git-timer", "start"])).unwrap();
    match cli.command {
        Command::Start { timer_name } => assert_eq!(timer_name, None),
        _ => panic!("expected start"),
    }
}

#[test]
fn parses_status() {
    let cli = parse_args(&argv(&["git-timer", "status"])).unwrap();
    assert!(matches!(cli.command, Command::Status));
}

#[test]
fn parses_commit_without_message() {
    let cli = parse_args(&argv(&["git-timer", "commit"])).unwrap();
    match cli.command {
        Command::Commit { message } => assert_eq!(message, None),
        _ => panic!("expected commit"),
    }
}

#[test]
fn parses_commit_with_short_and_long_message_flags() {
    for flag in ["-m", "--message"] {
        let cli = parse_args(&argv(&["git-timer", "commit", flag, "did things"])).unwrap();
        match cli.command {
            Command::Commit { message } => assert_eq!(message, Some(String::from("did things"))),
            _ => panic!("expected commit"),
        }
    }
}

#[test]
fn rejects_unknown_and_malformed_commands() {
    for bad in [
        vec!["git-timer"],
        vec!["git-timer", "frobnicate"],
        vec!["git-timer", "status", "extra"],
        vec!["git-timer", "start", "a", "b"],
        vec!["git-timer", "commit", "-m"],
        vec!["git-timer", "commit", "-x", "msg"],
        vec!["git-timer", "commit", "-m", "msg", "extra"],
    ] {
        let r = parse_args(&argv(&bad));
        assert_eq!(r.err().as_deref(), Some(USAGE), "input: {:?}", bad);
    }
}
