use git_timer::errors::TimerError;
use git_timer::storage::{
    get_repo_unique_id, get_timer_path, is_work_tree_output, repo_path_from_output,
};

#[test]
fn repo_id_is_stable_and_distinguishes_roots() {
    let a = get_repo_unique_id("/home/user/project");
    let b = get_repo_unique_id("/home/user/project");
    let c = get_repo_unique_id("/tmp/other");
    assert_eq!(a, b);
    assert_ne!(a, c);
}

#[test]
fn repo_id_is_the_fnv1a_hash_in_hex() {
    assert_eq!(get_repo_unique_id("/home/user/project"), "f8a71a04e8340307");
    assert_eq!(get_repo_unique_id("/tmp/other"), "4793ca890685cfee");
}

#[test]
fn timer_path_prefers_the_runtime_directory() {
    let p = get_timer_path(Some("/run/user/1000"), Some("/home/user/project"));
    assert_eq!(p, "/run/user/1000/git-timer/repo-f8a71a04e8340307.json");
}

#[test]
fn timer_path_falls_back_to_the_repository_root() {
    let expected = "/home/user/project/.git-timer/repo-f8a71a04e8340307.json";
    assert_eq!(get_timer_path(None, Some("/home/user/project")), expected);
    // an empty runtime directory counts as unavailable
    assert_eq!(get_timer_path(Some(""), Some("/home/user/project")), expected);
}

#[test]
fn timer_path_without_repository_context() {
    assert_eq!(get_timer_path(Some("/run/user/1000"), None), ".git-timer.json");
    assert_eq!(get_timer_path(None, None), ".git-timer.json");
}

#[test]
fn work_tree_detection_trims_and_compares() {
    assert!(is_work_tree_output(true, "true\n"));
    assert!(is_work_tree_output(true, "  true  "));
    assert!(!is_work_tree_output(true, "false\n"));
    assert!(!is_work_tree_output(true, ""));
    assert!(!is_work_tree_output(true, "truex"));
    assert!(!is_work_tree_output(false, "true\n"));
}

#[test]
fn repo_path_is_the_trimmed_output() {
    assert_eq!(
        repo_path_from_output(true, "/home/user/project\n"),
        Ok(String::from("/home/user/project"))
    );
    assert_eq!(repo_path_from_output(false, ""), Err(TimerError::NotARepository));
}

#[test]
fn error_messages_name_each_failure() {
    assert_eq!(
        TimerError::NotARepository.message(),
        "Not in a git repository. Please run git-timer inside a git repository."
    );
    assert_eq!(
        TimerError::AlreadyRunning.message(),
        "Timer is already running. Use 'git-timer status' to check or 'git-timer commit' to end it."
    );
    assert_eq!(TimerError::NoActiveTimer.message(), "No timer is currently running");
    assert_eq!(TimerError::CorruptState.message(), "Failed to parse timer data");
    assert_eq!(TimerError::IoError.message(), "Failed to access timer data");
    assert_eq!(TimerError::CommitFailed.message(), "Git commit failed. Timer data preserved.");
}
