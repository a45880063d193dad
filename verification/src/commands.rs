use vstd::prelude::*;
use crate::digits::{push_dec, push_dec_fixed, spec_dec_digits, spec_dec_fixed};
use crate::errors::TimerError;
use crate::text::{chars_to_string, push_str_chars, str_to_chars};
use crate::timer::{now_timestamp, spec_elapsed, elapsed_between, TimerData, Timestamp};

verus! {

/// How the external git commit is to be invoked by the surrounding program.
pub enum CommitInvocation {
    /// Run `git commit -m` with this full message: the user's message with
    /// the timing footer appended.
    Message(String),
    /// Run `git commit --template` with a temporary file holding these
    /// contents, so that git opens the interactive editor over them.
    Template(String),
}

/// The decision a `commit` command reached before any external work: how to
/// invoke git, and whether timing from an earlier failed commit attempt is
/// being reused.
pub struct CommitPlan {
    pub invocation: CommitInvocation,
    /// True when the record was already stopped by a previous `commit`
    /// whose git step failed; its timing is reused and the record is left
    /// as it was.  False when the running timer was stopped just now, in
    /// which case the updated record must be persisted before git runs.
    pub reused_previous: bool,
}

/// The timing footer appended to an explicit commit message.
pub open spec fn spec_footer(m: int, s: int) -> Seq<char> {
    "\n\n[Timer: "@ + spec_dec_digits(m) + " minutes "@ + spec_dec_digits(s) + " seconds]"@
}

/// The contents of the editable commit template: the timing reading as a
/// comment, so the underlying tool strips it from the final message.
pub open spec fn spec_template(m: int, s: int) -> Seq<char> {
    "\n\n# Timer: "@ + spec_dec_digits(m) + " minutes "@ + spec_dec_digits(s) + " seconds\n#\n"@
}

/// The line `start` reports, showing the wall-clock start time.
pub open spec fn spec_start_message(t: Timestamp) -> Seq<char> {
    "git-timer: Started timer at "@ + spec_dec_fixed(t.hour as int, 2) + ":"@ + spec_dec_fixed(
        t.minute as int,
        2,
    ) + ":"@ + spec_dec_fixed(t.second as int, 2)
}

/// The line `status` reports while the timer is running.
pub open spec fn spec_running_status(d: (int, int)) -> Seq<char> {
    "Timer has been running for "@ + spec_dec_digits(d.0) + " minutes and "@ + spec_dec_digits(
        d.1,
    ) + " seconds"@
}

/// The line `status` reports once the timer is stopped but not committed.
pub open spec fn spec_stopped_status(d: (int, int)) -> Seq<char> {
    "Timer has completed after "@ + spec_dec_digits(d.0) + " minutes and "@ + spec_dec_digits(
        d.1,
    ) + " seconds"@
}

/// True when `inv` is the git invocation owed for user message `msg` and
/// elapsed reading `d`: the message with the footer appended when a message
/// was given, else an editor template carrying the reading.
pub open spec fn spec_invocation_for(
    inv: CommitInvocation,
    msg: Option<Seq<char>>,
    d: (int, int),
) -> bool {
    match msg {
        Some(m) => inv matches CommitInvocation::Message(full) && full@ == m + spec_footer(
            d.0,
            d.1,
        ),
        None => inv matches CommitInvocation::Template(tc) && tc@ == spec_template(d.0, d.1),
    }
}

/// Appends the timing footer for `m` minutes and `s` seconds to `out`.
fn push_footer(m: u64, s: u64, out: &mut Vec<char>)
    ensures
        final(out)@ == old(out)@ + spec_footer(m as int, s as int),
{
    push_str_chars("\n\n[Timer: ", out);
    push_dec(m, out);
    push_str_chars(" minutes ", out);
    push_dec(s, out);
    push_str_chars(" seconds]", out);
    proof {
        assert(out@ =~= old(out)@ + spec_footer(m as int, s as int));
    }
}

/// Appends the commit template contents for `m` minutes and `s` seconds to
/// `out`.
fn push_template(m: u64, s: u64, out: &mut Vec<char>)
    ensures
        final(out)@ == old(out)@ + spec_template(m as int, s as int),
{
    push_str_chars("\n\n# Timer: ", out);
    push_dec(m, out);
    push_str_chars(" minutes ", out);
    push_dec(s, out);
    push_str_chars(" seconds\n#\n", out);
    proof {
        assert(out@ =~= old(out)@ + spec_template(m as int, s as int));
    }
}

/// Begins a new timing session.  Refuses with [`TimerError::AlreadyRunning`]
/// while a timer is running, leaving the record untouched; otherwise stamps
/// `start` with the current clock reading, clears `end`, installs the given
/// name, and returns the report line for the user.
pub fn start_timer(timer_data: &mut TimerData, timer_name: Option<String>) -> (r: Result<
    String,
    TimerError,
>)
    requires
        old(timer_data).wf(),
    ensures
        final(timer_data).wf(),
        old(timer_data)@.spec_is_running() ==> r == Err::<String, TimerError>(
            TimerError::AlreadyRunning,
        ) && final(timer_data)@ == old(timer_data)@,
        !old(timer_data)@.spec_is_running() ==> {
            &&& final(timer_data)@.end is None
            &&& final(timer_data)@.name == (match timer_name {
                Some(n) => Some(n@),
                None => None::<Seq<char>>,
            })
            &&& (final(timer_data)@.start matches Some(t) && t.wf() && (r matches Ok(msg)
                && msg@ == spec_start_message(t)))
        },
{
    if timer_data.is_running() {
        return Err(TimerError::AlreadyRunning);
    }
    let now = now_timestamp();
    timer_data.name = timer_name;
    timer_data.start = Some(now);
    timer_data.end = None;
    let mut out: Vec<char> = Vec::new();
    push_str_chars("git-timer: Started timer at ", &mut out);
    push_dec_fixed(now.hour as u64, 2, &mut out);
    push_str_chars(":", &mut out);
    push_dec_fixed(now.minute as u64, 2, &mut out);
    push_str_chars(":", &mut out);
    push_dec_fixed(now.second as u64, 2, &mut out);
    proof {
        assert(out@ =~= spec_start_message(now));
    }
    Ok(chars_to_string(&out))
}

/// The status line for this record measured against the explicit instant
/// `now`: exactly what [`show_status`] reports, with the clock reading made
/// an argument.
pub fn status_line_at(timer_data: &TimerData, now: &Timestamp) -> (r: String)
    requires
        timer_data.wf(),
        now.wf(),
    ensures
        timer_data@.start is None ==> r@ == "No timer running."@,
        timer_data@.spec_is_running() ==> (timer_data@.start matches Some(s) && r@
            == spec_running_status(spec_elapsed(s, *now))),
        timer_data@.spec_is_stopped() ==> (timer_data@.start matches Some(s)
            && timer_data@.end matches Some(e) && r@ == spec_stopped_status(spec_elapsed(s, e))),
{
    match (timer_data.start, timer_data.end) {
        (Some(s), Some(e)) => {
            let (m, sec) = elapsed_between(&s, &e);
            let mut out: Vec<char> = Vec::new();
            push_str_chars("Timer has completed after ", &mut out);
            push_dec(m as u64, &mut out);
            push_str_chars(" minutes and ", &mut out);
            push_dec(sec as u64, &mut out);
            push_str_chars(" seconds", &mut out);
            proof {
                assert(out@ =~= spec_stopped_status(spec_elapsed(s, e)));
            }
            chars_to_string(&out)
        },
        (Some(s), None) => {
            let (m, sec) = elapsed_between(&s, now);
            let mut out: Vec<char> = Vec::new();
            push_str_chars("Timer has been running for ", &mut out);
            push_dec(m as u64, &mut out);
            push_str_chars(" minutes and ", &mut out);
            push_dec(sec as u64, &mut out);
            push_str_chars(" seconds", &mut out);
            proof {
                assert(out@ =~= spec_running_status(spec_elapsed(s, *now)));
            }
            chars_to_string(&out)
        },
        (None, _) => {
            let mut out: Vec<char> = Vec::new();
            push_str_chars("No timer running.", &mut out);
            chars_to_string(&out)
        },
    }
}

/// Reports the current state of the record without changing anything: an
/// idle, running (live reading) or stopped message.
pub fn show_status(timer_data: &TimerData) -> (r: String)
    requires
        timer_data.wf(),
    ensures
        timer_data@.start is None ==> r@ == "No timer running."@,
        timer_data@.spec_is_running() ==> (timer_data@.start matches Some(s) && exists|
            now: Timestamp,
        |
            now.wf() && r@ == spec_running_status(spec_elapsed(s, now))),
        timer_data@.spec_is_stopped() ==> (timer_data@.start matches Some(s)
            && timer_data@.end matches Some(e) && r@ == spec_stopped_status(spec_elapsed(s, e))),
{
    let now = now_timestamp();
    let r = status_line_at(timer_data, &now);
    proof {
        if timer_data@.spec_is_running() {
            assert(now.wf());
        }
    }
    r
}

/// Decides a `commit` command up to the external git step.
///
/// On an idle record (nothing ever started) it refuses with
/// [`TimerError::NoActiveTimer`] and git must not be invoked.  On a record
/// stopped by an earlier failed commit it reuses the recorded timing and
/// leaves the record unchanged.  On a running record it stamps `end` with
/// the current clock reading (clamped to `start` if the clock moved
/// backwards), and the caller must persist the record before invoking git,
/// so a crash in the external step cannot lose the timing.  The returned
/// plan carries the exact git invocation: the user's message with the
/// timing footer appended, or an editor template when no message was given.
pub fn commit_with_timer(message: Option<&str>, timer_data: &mut TimerData) -> (r: Result<
    CommitPlan,
    TimerError,
>)
    requires
        old(timer_data).wf(),
    ensures
        final(timer_data).wf(),
        old(timer_data)@.start is None ==> r == Err::<CommitPlan, TimerError>(
            TimerError::NoActiveTimer,
        ) && final(timer_data)@ == old(timer_data)@,
        old(timer_data)@.spec_is_stopped() ==> (final(timer_data)@ == old(timer_data)@ && (
        r matches Ok(p) && p.reused_previous && (old(timer_data)@.start matches Some(s)
            ==> old(timer_data)@.end matches Some(e) ==> spec_invocation_for(
            p.invocation,
            match message {
                Some(m) => Some(m@),
                None => None::<Seq<char>>,
            },
            spec_elapsed(s, e),
        )))),
        old(timer_data)@.spec_is_running() ==> {
            &&& final(timer_data)@.name == old(timer_data)@.name
            &&& final(timer_data)@.start == old(timer_data)@.start
            &&& (final(timer_data)@.end matches Some(e2) && e2.wf() && (
            old(timer_data)@.start matches Some(s) ==> s.spec_epoch_seconds()
                <= e2.spec_epoch_seconds() && (r matches Ok(p) && !p.reused_previous
                && spec_invocation_for(
                p.invocation,
                match message {
                    Some(m) => Some(m@),
                    None => None::<Seq<char>>,
                },
                spec_elapsed(s, e2),
            ))))
        },
{
    let (reused, s_ts, e_ts): (bool, Timestamp, Timestamp) = match (
        timer_data.start,
        timer_data.end,
    ) {
        (Some(a), Some(b)) => (true, a, b),
        (Some(a), None) => {
            let now = now_timestamp();
            // A clock that moved backwards would record an end before the
            // start; clamp so the stopped record keeps its invariant.
            let e2 = if now.epoch_seconds() < a.epoch_seconds() {
                a
            } else {
                now
            };
            timer_data.end = Some(e2);
            (false, a, e2)
        },
        (None, _) => {
            return Err(TimerError::NoActiveTimer);
        },
    };
    let (mins, secs) = elapsed_between(&s_ts, &e_ts);
    let invocation = match message {
        Some(m) => {
            let mut out = str_to_chars(m);
            push_footer(mins as u64, secs as u64, &mut out);
            CommitInvocation::Message(chars_to_string(&out))
        },
        None => {
            let mut out: Vec<char> = Vec::new();
            push_template(mins as u64, secs as u64, &mut out);
            CommitInvocation::Template(chars_to_string(&out))
        },
    };
    Ok(CommitPlan { invocation, reused_previous: reused })
}

} // verus!
