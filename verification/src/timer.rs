use vstd::prelude::*;
use vstd::arithmetic::div_mod::{
    lemma_fundamental_div_mod, lemma_hoist_over_denominator, lemma_mod_bound,
    lemma_mod_multiples_vanish, lemma_div_pos_is_pos,
};

verus! {

/// A civil (wall-clock) date and time together with its UTC offset, the way
/// the timestamp is shown in the persisted file.  The offset is the number of
/// minutes that must be subtracted from the civil reading to obtain UTC.
#[derive(Clone, Copy, Debug, PartialEq, Eq, Structural)]
pub struct Timestamp {
    pub year: i32,
    pub month: u8,
    pub day: u8,
    pub hour: u8,
    pub minute: u8,
    pub second: u8,
    pub offset_minutes: i32,
}

/// True for years with 366 days in the proleptic Gregorian calendar.
pub open spec fn spec_is_leap_year(y: int) -> bool {
    (y % 4 == 0 && y % 100 != 0) || y % 400 == 0
}

/// The number of days in month `m` of year `y`.
pub open spec fn spec_days_in_month(y: int, m: int) -> int {
    if m == 2 {
        if spec_is_leap_year(y) {
            29
        } else {
            28
        }
    } else if m == 4 || m == 6 || m == 9 || m == 11 {
        30
    } else {
        31
    }
}

/// The number of days from 1970-01-01 to the civil date `y`-`m`-`d`
/// (negative for earlier dates), for any valid Gregorian date.
pub open spec fn spec_days_from_civil(y: int, m: int, d: int) -> int {
    let yy = if m <= 2 {
        y - 1
    } else {
        y
    };
    let era = yy / 400;
    let yoe = yy - era * 400;
    let mp = if m > 2 {
        m - 3
    } else {
        m + 9
    };
    let doy = (153 * mp + 2) / 5 + d - 1;
    let doe = yoe * 365 + yoe / 4 - yoe / 100 + doy;
    era * 146097 + doe - 719468
}

impl Timestamp {
    /// A valid calendar reading: a real Gregorian date, clock fields in
    /// range, an offset below one day, and a year within the range the
    /// system clock can report.
    pub open spec fn wf(self) -> bool {
        &&& -262144 <= self.year <= 262143
        &&& 1 <= self.month <= 12
        &&& 1 <= self.day && self.day as int <= spec_days_in_month(
            self.year as int,
            self.month as int,
        )
        &&& self.hour <= 23
        &&& self.minute <= 59
        &&& self.second <= 59
        &&& -1439 <= self.offset_minutes <= 1439
    }

    /// The instant this reading denotes, as seconds since the Unix epoch.
    pub open spec fn spec_epoch_seconds(self) -> int {
        spec_days_from_civil(self.year as int, self.month as int, self.day as int) * 86400
            + self.hour as int * 3600 + self.minute as int * 60 + self.second as int
            - self.offset_minutes as int * 60
    }

    /// Computes the instant this reading denotes, as seconds since the Unix
    /// epoch.
    pub fn epoch_seconds(&self) -> (r: i64)
        requires
            self.wf(),
        ensures
            r as int == self.spec_epoch_seconds(),
            -100_000_000_000_000 < r < 100_000_000_000_000,
    {
        let days: i64 = days_from_civil(self.year, self.month, self.day);
        days * 86400 + (self.hour as i64) * 3600 + (self.minute as i64) * 60
            + (self.second as i64) - (self.offset_minutes as i64) * 60
    }
}

/// Decides whether `year` is a Gregorian leap year.
pub fn is_leap_year(year: i32) -> (r: bool)
    requires
        -262144 <= year <= 262143,
    ensures
        r == spec_is_leap_year(year as int),
{
    // Shift by a multiple of 400 so the remainders are taken of a
    // non-negative number.
    let ys: u64 = (year as i64 + 400000) as u64;
    proof {
        lemma_mod_multiples_vanish(100000, year as int, 4);
        lemma_mod_multiples_vanish(4000, year as int, 100);
        lemma_mod_multiples_vanish(1000, year as int, 400);
    }
    (ys % 4 == 0 && ys % 100 != 0) || ys % 400 == 0
}

/// The number of days in month `month` of year `year`.
pub fn days_in_month(year: i32, month: u8) -> (r: u8)
    requires
        -262144 <= year <= 262143,
        1 <= month <= 12,
    ensures
        r as int == spec_days_in_month(year as int, month as int),
{
    if month == 2 {
        if is_leap_year(year) {
            29
        } else {
            28
        }
    } else if month == 4 || month == 6 || month == 9 || month == 11 {
        30
    } else {
        31
    }
}

/// Computes the day number of `year`-`month`-`day` relative to 1970-01-01.
pub fn days_from_civil(year: i32, month: u8, day: u8) -> (r: i64)
    requires
        -262144 <= year <= 262143,
        1 <= month <= 12,
        1 <= day <= 31,
    ensures
        r as int == spec_days_from_civil(year as int, month as int, day as int),
        -200_000_000 < r < 200_000_000,
{
    let yy: i64 = if month <= 2 {
        year as i64 - 1
    } else {
        year as i64
    };
    // Shift the year count by 656 eras of 400 years so that every quantity
    // below is non-negative and machine division agrees with the
    // mathematical (floor) division used in the specification.
    let ys: u64 = (yy + 262400) as u64;
    let era_s: u64 = ys / 400;
    let yoe: u64 = ys % 400;
    let mp: u64 = if month > 2 {
        (month - 3) as u64
    } else {
        (month + 9) as u64
    };
    let doy: u64 = (153 * mp + 2) / 5 + (day - 1) as u64;
    let doe: u64 = yoe * 365 + yoe / 4 - yoe / 100 + doy;
    let total: u64 = era_s * 146097 + doe;
    let r: i64 = (total as i64) - 95839632 - 719468;
    proof {
        let y = year as int;
        let m = month as int;
        let yys = if m <= 2 {
            y - 1
        } else {
            y
        };
        assert(yy as int == yys);
        let era = yys / 400;
        lemma_hoist_over_denominator(yys, 656, 400);
        assert(era_s as int == era + 656);
        lemma_fundamental_div_mod(yys, 400);
        lemma_mod_multiples_vanish(656, yys, 400);
        assert(yoe as int == yys - era * 400);
    }
    r
}

/// An idle record: no timer has been started, or the last one was committed
/// and cleaned up.
pub open spec fn spec_idle() -> SpecTimerData {
    SpecTimerData { name: None, start: None, end: None }
}

/// The mathematical content of a [`TimerData`] record: the timer name as a
/// character sequence, and the two optional timestamps.
pub ghost struct SpecTimerData {
    pub name: Option<Seq<char>>,
    pub start: Option<Timestamp>,
    pub end: Option<Timestamp>,
}

impl SpecTimerData {
    /// The record invariant: timestamps are valid readings, `end` is never
    /// set while `start` is unset, and a stopped record never ends before it
    /// starts.  A persisted record that breaks the last clause is treated as
    /// corrupt rather than yielding a negative duration.
    pub open spec fn wf(self) -> bool {
        &&& (self.start matches Some(s) ==> s.wf())
        &&& (self.end matches Some(e) ==> e.wf())
        &&& (self.start is None ==> self.end is None)
        &&& (self.start matches Some(s) ==> self.end matches Some(e)
            ==> s.spec_epoch_seconds() <= e.spec_epoch_seconds())
    }

    /// Timing is in progress.
    pub open spec fn spec_is_running(self) -> bool {
        self.start is Some && self.end is None
    }

    /// Timing has concluded but the commit step has not yet succeeded.
    pub open spec fn spec_is_stopped(self) -> bool {
        self.start is Some && self.end is Some
    }
}

/// The persisted timer state: an optional label and the start and end of the
/// current timing session.  `start` set with `end` unset means the timer is
/// running; both set means it is stopped but not yet committed; both unset
/// means idle.
#[derive(Debug)]
pub struct TimerData {
    pub name: Option<String>,
    pub start: Option<Timestamp>,
    pub end: Option<Timestamp>,
}

impl View for TimerData {
    type V = SpecTimerData;

    open spec fn view(&self) -> SpecTimerData {
        SpecTimerData {
            name: match self.name {
                Some(n) => Some(n@),
                None => None,
            },
            start: self.start,
            end: self.end,
        }
    }
}

/// The whole minutes and leftover seconds elapsed from `s` to `e`.  A
/// reference instant earlier than `s` (a clock that moved backwards) is
/// clamped to a zero duration rather than reported as negative.
pub open spec fn spec_elapsed(s: Timestamp, e: Timestamp) -> (int, int) {
    let total = if e.spec_epoch_seconds() < s.spec_epoch_seconds() {
        0
    } else {
        e.spec_epoch_seconds() - s.spec_epoch_seconds()
    };
    (total / 60, total % 60)
}

/// The elapsed reading splits the duration exactly: for any valid start `s`
/// and end `e` not before `s`, the minutes and seconds returned satisfy
/// `minutes * 60 + seconds == e - s` in seconds, with `0 <= seconds < 60`
/// and `minutes >= 0`.
pub proof fn lemma_elapsed_decomposition(s: Timestamp, e: Timestamp)
    requires
        s.wf(),
        e.wf(),
        s.spec_epoch_seconds() <= e.spec_epoch_seconds(),
    ensures
        ({
            let (m, sec) = spec_elapsed(s, e);
            &&& m * 60 + sec == e.spec_epoch_seconds() - s.spec_epoch_seconds()
            &&& 0 <= sec < 60
            &&& 0 <= m
        }),
{
    let total = e.spec_epoch_seconds() - s.spec_epoch_seconds();
    lemma_fundamental_div_mod(total, 60);
    lemma_mod_bound(total, 60);
    lemma_div_pos_is_pos(total, 60);
}

/// Computes [`spec_elapsed`] for two valid readings.
pub fn elapsed_between(s: &Timestamp, e: &Timestamp) -> (r: (i64, i64))
    requires
        s.wf(),
        e.wf(),
    ensures
        (r.0 as int, r.1 as int) == spec_elapsed(*s, *e),
        0 <= r.1 < 60,
        0 <= r.0,
{
    let ss = s.epoch_seconds();
    let es = e.epoch_seconds();
    let total: u64 = if es < ss {
        0
    } else {
        (es - ss) as u64
    };
    let m = (total / 60) as i64;
    let sec = (total % 60) as i64;
    (m, sec)
}

impl TimerData {
    /// The record invariant; see [`SpecTimerData::wf`].
    pub open spec fn wf(self) -> bool {
        self@.wf()
    }

    /// Creates an idle record, the state used when no file is persisted.
    pub fn new() -> (r: TimerData)
        ensures
            r@ == spec_idle(),
            r.wf(),
    {
        TimerData { name: None, start: None, end: None }
    }

    /// True iff timing is in progress: `start` set and `end` unset.
    pub fn is_running(&self) -> (r: bool)
        ensures
            r == self@.spec_is_running(),
    {
        self.start.is_some() && self.end.is_none()
    }

    /// The elapsed minutes and seconds of this record, measured against the
    /// explicit instant `now` when the timer is still running: exactly what
    /// [`Self::calculate_duration`] reports, with the clock reading made an
    /// argument.  Returns `None` on an idle record.
    pub fn calculate_duration_at(&self, now: &Timestamp) -> (r: Option<(i64, i64)>)
        requires
            self.wf(),
            now.wf(),
        ensures
            match (self@.start, self@.end) {
                (Some(s), Some(e)) => r matches Some(p) && (p.0 as int, p.1 as int)
                    == spec_elapsed(s, e),
                (Some(s), None) => r matches Some(p) && (p.0 as int, p.1 as int)
                    == spec_elapsed(s, *now),
                (None, _) => r is None,
            },
    {
        match (&self.start, &self.end) {
            (Some(s), Some(e)) => Some(elapsed_between(s, e)),
            (Some(s), None) => Some(elapsed_between(s, now)),
            _ => None,
        }
    }

    /// The elapsed minutes and seconds of this record.  On a stopped record
    /// the result is exactly the duration from `start` to `end`; on a
    /// running record it is a live reading against the current clock; on an
    /// idle record it is `None`.
    pub fn calculate_duration(&self) -> (r: Option<(i64, i64)>)
        requires
            self.wf(),
        ensures
            match (self@.start, self@.end) {
                (Some(s), Some(e)) => r matches Some(p) && (p.0 as int, p.1 as int)
                    == spec_elapsed(s, e),
                (Some(s), None) => r matches Some(p) && exists|now: Timestamp|
                    now.wf() && (p.0 as int, p.1 as int) == spec_elapsed(s, now),
                (None, _) => r is None,
            },
    {
        match (&self.start, &self.end) {
            (Some(_), None) => {
                let now = now_timestamp();
                self.calculate_duration_at(&now)
            },
            _ => {
                // The reference instant is unused on stopped and idle
                // records; any valid reading will do.
                let unused = Timestamp {
                    year: 1970,
                    month: 1,
                    day: 1,
                    hour: 0,
                    minute: 0,
                    second: 0,
                    offset_minutes: 0,
                };
                self.calculate_duration_at(&unused)
            },
        }
    }
}

/// Relies on `chrono::Local::now` for the current civil date, time and UTC
/// offset, read through chrono's `Datelike`, `Timelike` and `Offset`
/// accessors: the fields of a real `DateTime` form a valid calendar date
/// with in-range clock fields, a year within chrono's documented range, and
/// an offset strictly below one day in seconds.
#[verifier::external_body]
fn clock_now_parts() -> (p: (i32, u8, u8, u8, u8, u8, i32))
    ensures
        -262143 <= p.0 <= 262142,
        1 <= p.1 <= 12,
        1 <= p.2 && p.2 as int <= spec_days_in_month(p.0 as int, p.1 as int),
        p.3 <= 23,
        p.4 <= 59,
        p.5 <= 59,
        -86399 <= p.6 <= 86399,
{
    let now = chrono::Local::now();
    (
        chrono::Datelike::year(&now),
        chrono::Datelike::month(&now) as u8,
        chrono::Datelike::day(&now) as u8,
        chrono::Timelike::hour(&now) as u8,
        chrono::Timelike::minute(&now) as u8,
        chrono::Timelike::second(&now) as u8,
        now.offset().local_minus_utc(),
    )
}

/// Reads the current moment from the system clock as a valid calendar
/// reading.  A sub-minute part of the UTC offset is dropped.
pub fn now_timestamp() -> (t: Timestamp)
    ensures
        t.wf(),
{
    let (y, mo, d, h, mi, s, off) = clock_now_parts();
    let om: i32 = if off >= 0 {
        ((off as u64) / 60) as i32
    } else {
        -((((-off) as u64) / 60) as i32)
    };
    Timestamp { year: y, month: mo, day: d, hour: h, minute: mi, second: s, offset_minutes: om }
}

} // verus!
