use vstd::prelude::*;
use vstd::string::StringExecFns;

verus! {

/// A parsed command line.
pub struct Cli {
    pub command: Command,
}

/// The three commands of the tool.
pub enum Command {
    /// Begin a timing session, optionally labelled.
    Start { timer_name: Option<String> },
    /// Report the current state; no side effects.
    Status,
    /// Stop the timer and commit, optionally with an explicit message.
    Commit { message: Option<String> },
}

/// The mathematical content of a parsed command.
pub ghost enum SpecCommand {
    Start(Option<Seq<char>>),
    Status,
    Commit(Option<Seq<char>>),
}

impl View for Command {
    type V = SpecCommand;

    open spec fn view(&self) -> SpecCommand {
        match self {
            Command::Start { timer_name } => SpecCommand::Start(
                match timer_name {
                    Some(n) => Some(n@),
                    None => None,
                },
            ),
            Command::Status => SpecCommand::Status,
            Command::Commit { message } => SpecCommand::Commit(
                match message {
                    Some(m) => Some(m@),
                    None => None,
                },
            ),
        }
    }
}

impl View for Cli {
    type V = SpecCommand;

    open spec fn view(&self) -> SpecCommand {
        self.command@
    }
}

/// The command a full argument vector denotes, the program name included
/// as its first element, or `None` for anything outside the grammar
/// `start [<name>] | status | commit [-m|--message <text>]`.
pub open spec fn spec_parse_args(args: Seq<Seq<char>>) -> Option<SpecCommand> {
    if args.len() < 2 {
        None
    } else if args[1] == "start"@ {
        if args.len() == 2 {
            Some(SpecCommand::Start(None))
        } else if args.len() == 3 {
            Some(SpecCommand::Start(Some(args[2])))
        } else {
            None
        }
    } else if args[1] == "status"@ {
        if args.len() == 2 {
            Some(SpecCommand::Status)
        } else {
            None
        }
    } else if args[1] == "commit"@ {
        if args.len() == 2 {
            Some(SpecCommand::Commit(None))
        } else if args.len() == 4 && (args[2] == "-m"@ || args[2] == "--message"@) {
            Some(SpecCommand::Commit(Some(args[3])))
        } else {
            None
        }
    } else {
        None
    }
}

/// The usage line reported for an argument vector outside the grammar.
pub open spec fn spec_usage() -> Seq<char> {
    "usage: git-timer <start [<name>] | status | commit [-m <message>]>"@
}

/// True when argument `i` equals the word `w`.
fn arg_is(args: &Vec<String>, i: usize, w: &str) -> (r: bool)
    requires
        i < args@.len(),
    ensures
        r == (args.deep_view()[i as int] == w@),
{
    let r = args[i] == w.to_owned();
    proof {
        assert(args.deep_view()[i as int] == args@[i as int]@);
    }
    r
}

/// Parses a full argument vector, the program name included as its first
/// element, into a command, or reports the usage line for anything the
/// grammar does not cover.
pub fn parse_args(args: &Vec<String>) -> (r: Result<Cli, String>)
    ensures
        match spec_parse_args(args.deep_view()) {
            Some(c) => r matches Ok(cli) && cli@ == c,
            None => r matches Err(m) && m@ == spec_usage(),
        },
{
    proof {
        assert(args.deep_view().len() == args@.len());
    }
    if args.len() >= 2 && arg_is(args, 1, "start") {
        if args.len() == 2 {
            return Ok(Cli { command: Command::Start { timer_name: None } });
        }
        if args.len() == 3 {
            let name = args[2].clone();
            proof {
                assert(args.deep_view()[2] == args@[2]@);
            }
            return Ok(Cli { command: Command::Start { timer_name: Some(name) } });
        }
    } else if args.len() >= 2 && arg_is(args, 1, "status") {
        if args.len() == 2 {
            return Ok(Cli { command: Command::Status });
        }
    } else if args.len() >= 2 && arg_is(args, 1, "commit") {
        if args.len() == 2 {
            return Ok(Cli { command: Command::Commit { message: None } });
        }
        if args.len() == 4 && (arg_is(args, 2, "-m") || arg_is(args, 2, "--message")) {
            let msg = args[3].clone();
            proof {
                assert(args.deep_view()[3] == args@[3]@);
            }
            return Ok(Cli { command: Command::Commit { message: Some(msg) } });
        }
    }
    Err(String::from_str("usage: git-timer <start [<name>] | status | commit [-m <message>]>"))
}

} // verus!
