use vstd::prelude::*;
use vstd::string::StringExecFns;

verus! {

/// Every way a timer command can fail.
///
/// `NotARepository`, `IoError` and `CommitFailed` describe failures of the
/// surrounding process (repository detection, file access, the external git
/// commit); the program around the library maps those failures onto these
/// variants.  `AlreadyRunning`, `NoActiveTimer` and `CorruptState` are
/// produced by the library itself.
#[derive(Clone, Copy, Debug, PartialEq, Eq, Structural)]
pub enum TimerError {
    /// The current directory is not inside a git working tree.
    NotARepository,
    /// `start` was invoked while a timer is already running.
    AlreadyRunning,
    /// `commit` was invoked with no running and no stopped timer.
    NoActiveTimer,
    /// The persisted timer file exists but cannot be parsed.
    CorruptState,
    /// Reading or writing the timer file failed.
    IoError,
    /// The external git commit ran but reported failure.
    CommitFailed,
}

impl TimerError {
    /// The text that `message` returns for each variant.
    pub open spec fn spec_message(self) -> Seq<char> {
        match self {
            TimerError::NotARepository => "Not in a git repository. Please run git-timer inside a git repository."@,
            TimerError::AlreadyRunning => "Timer is already running. Use 'git-timer status' to check or 'git-timer commit' to end it."@,
            TimerError::NoActiveTimer => "No timer is currently running"@,
            TimerError::CorruptState => "Failed to parse timer data"@,
            TimerError::IoError => "Failed to access timer data"@,
            TimerError::CommitFailed => "Git commit failed. Timer data preserved."@,
        }
    }

    /// A human-readable description of the failure.
    pub fn message(&self) -> (r: String)
        ensures
            r@ == self.spec_message(),
    {
        match self {
            TimerError::NotARepository => String::from_str("Not in a git repository. Please run git-timer inside a git repository."),
            TimerError::AlreadyRunning => String::from_str("Timer is already running. Use 'git-timer status' to check or 'git-timer commit' to end it."),
            TimerError::NoActiveTimer => String::from_str("No timer is currently running"),
            TimerError::CorruptState => String::from_str("Failed to parse timer data"),
            TimerError::IoError => String::from_str("Failed to access timer data"),
            TimerError::CommitFailed => String::from_str("Git commit failed. Timer data preserved."),
        }
    }
}

} // verus!
