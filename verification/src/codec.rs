use vstd::prelude::*;
use vstd::math::abs;
use crate::digits::{
    lemma_parse_dec_fixed, lemma_pow10_values, read_fixed, push_dec_fixed, spec_dec_fixed,
    spec_parse_fixed,
};
use vstd::arithmetic::div_mod::{
    lemma_fundamental_div_mod, lemma_mod_bound, lemma_div_is_ordered,
};
use crate::errors::TimerError;
use crate::text::{chars_to_string, push_str_chars, str_to_chars};
use crate::timer::{
    days_in_month, spec_days_in_month, spec_idle, SpecTimerData, TimerData, Timestamp,
};

verus! {

// ---------------------------------------------------------------------------
// The persisted format, as sequences of characters.
//
// A record is stored as a small JSON object with fixed layout:
//
//     {
//       "name": "foo",
//       "start": "+002024-01-15T10:30:00+01:00",
//       "end": null
//     }
//
// An absent name or timestamp is `null`.  Timestamps are ISO-8601 readings
// with an explicitly signed six-digit year, so every field has a fixed
// width.  In names, the quote and backslash characters are escaped with a
// backslash.  `load` accepts exactly this shape and treats everything else
// as corrupt.
// ---------------------------------------------------------------------------
/// The escape sequence a single name character is stored as.
pub open spec fn spec_escape_char(c: char) -> Seq<char> {
    if c == '"' || c == '\\' {
        seq!['\\', c]
    } else {
        seq![c]
    }
}

/// The stored form of a name: each character escaped.
pub open spec fn spec_escape(s: Seq<char>) -> Seq<char>
    decreases s.len(),
{
    if s.len() == 0 {
        Seq::empty()
    } else {
        spec_escape_char(s[0]) + spec_escape(s.drop_first())
    }
}

/// Escaping a concatenation escapes the parts.
pub proof fn lemma_escape_concat(a: Seq<char>, b: Seq<char>)
    ensures
        spec_escape(a + b) == spec_escape(a) + spec_escape(b),
    decreases a.len(),
{
    if a.len() == 0 {
        assert(a + b =~= b);
        assert(spec_escape(a) + spec_escape(b) =~= spec_escape(b));
    } else {
        assert((a + b).drop_first() =~= a.drop_first() + b);
        lemma_escape_concat(a.drop_first(), b);
        assert(spec_escape(a + b) =~= spec_escape(a) + spec_escape(b));
    }
}

/// The stored form of a timestamp: sign and six-digit year, then the
/// month, day and clock fields, then the signed offset in hours and
/// minutes.
pub open spec fn spec_ts_chars(t: Timestamp) -> Seq<char> {
    (if t.year < 0 {
        seq!['-']
    } else {
        seq!['+']
    }) + spec_dec_fixed(abs(t.year as int) as int, 6) + seq!['-'] + spec_dec_fixed(t.month as int, 2)
        + seq!['-'] + spec_dec_fixed(t.day as int, 2) + seq!['T'] + spec_dec_fixed(
        t.hour as int,
        2,
    ) + seq![':'] + spec_dec_fixed(t.minute as int, 2) + seq![':'] + spec_dec_fixed(
        t.second as int,
        2,
    ) + (if t.offset_minutes < 0 {
        seq!['-']
    } else {
        seq!['+']
    }) + spec_dec_fixed(abs(t.offset_minutes as int) as int / 60, 2) + seq![':'] + spec_dec_fixed(
        abs(t.offset_minutes as int) as int % 60,
        2,
    )
}

/// The stored form of an optional name.
pub open spec fn spec_opt_name_chars(n: Option<Seq<char>>) -> Seq<char> {
    match n {
        None => "null"@,
        Some(nm) => seq!['"'] + spec_escape(nm) + seq!['"'],
    }
}

/// The stored form of an optional timestamp.
pub open spec fn spec_opt_ts_chars(t: Option<Timestamp>) -> Seq<char> {
    match t {
        None => "null"@,
        Some(ts) => seq!['"'] + spec_ts_chars(ts) + seq!['"'],
    }
}

/// The full stored form of a record.
pub open spec fn spec_save(d: SpecTimerData) -> Seq<char> {
    "{\n  \"name\": "@ + spec_opt_name_chars(d.name) + ",\n  \"start\": "@ + spec_opt_ts_chars(
        d.start,
    ) + ",\n  \"end\": "@ + spec_opt_ts_chars(d.end) + "\n}"@
}

/// Appends the escaped form of `nm` to `out`.
fn push_escaped(nm: &str, out: &mut Vec<char>)
    ensures
        final(out)@ == old(out)@ + spec_escape(nm@),
{
    let n = nm.unicode_len();
    let mut i: usize = 0;
    while i < n
        invariant
            i <= n,
            n == nm@.len(),
            out@ == old(out)@ + spec_escape(nm@.take(i as int)),
        decreases n - i,
    {
        let c = nm.get_char(i);
        if c == '"' || c == '\\' {
            out.push('\\');
            out.push(c);
        } else {
            out.push(c);
        }
        proof {
            let pre = nm@.take(i as int);
            let one = seq![nm@[i as int]];
            assert(nm@.take(i + 1 as int) =~= pre + one);
            lemma_escape_concat(pre, one);
            assert(one.drop_first() =~= Seq::<char>::empty());
            assert(spec_escape(Seq::<char>::empty()) == Seq::<char>::empty());
            assert(spec_escape(one) =~= spec_escape_char(nm@[i as int]));
            assert(out@ =~= old(out)@ + spec_escape(nm@.take(i + 1 as int)));
        }
        i = i + 1;
    }
    proof {
        assert(nm@.take(nm@.len() as int) =~= nm@);
    }
}

/// Appends the stored form of timestamp `t` to `out`.
#[verifier::rlimit(60)]
fn push_ts(t: &Timestamp, out: &mut Vec<char>)
    requires
        t.wf(),
    ensures
        final(out)@ == old(out)@ + spec_ts_chars(*t),
{
    let yabs: u64 = if t.year < 0 {
        out.push('-');
        (-(t.year as i64)) as u64
    } else {
        out.push('+');
        t.year as u64
    };
    push_dec_fixed(yabs, 6, out);
    out.push('-');
    push_dec_fixed(t.month as u64, 2, out);
    out.push('-');
    push_dec_fixed(t.day as u64, 2, out);
    out.push('T');
    push_dec_fixed(t.hour as u64, 2, out);
    out.push(':');
    push_dec_fixed(t.minute as u64, 2, out);
    out.push(':');
    push_dec_fixed(t.second as u64, 2, out);
    let oabs: u64 = if t.offset_minutes < 0 {
        out.push('-');
        (-(t.offset_minutes as i64)) as u64
    } else {
        out.push('+');
        t.offset_minutes as u64
    };
    push_dec_fixed(oabs / 60, 2, out);
    out.push(':');
    push_dec_fixed(oabs % 60, 2, out);
    proof {
        assert(yabs as int == abs(t.year as int) as int);
        assert(oabs as int == abs(t.offset_minutes as int) as int);
        assert(out@ =~= old(out)@ + spec_ts_chars(*t));
    }
}

impl TimerData {
    /// Serializes this record to the persisted text form described by
    /// [`spec_save`].  The caller owns writing the text to the timer file.
    #[verifier::rlimit(100)]
    pub fn save(&self) -> (r: String)
        requires
            self.wf(),
        ensures
            r@ == spec_save(self@),
    {
        let mut out: Vec<char> = Vec::new();
        push_str_chars("{\n  \"name\": ", &mut out);
        match &self.name {
            None => push_str_chars("null", &mut out),
            Some(nm) => {
                out.push('"');
                push_escaped(nm.as_str(), &mut out);
                out.push('"');
            },
        }
        push_str_chars(",\n  \"start\": ", &mut out);
        match &self.start {
            None => push_str_chars("null", &mut out),
            Some(t) => {
                out.push('"');
                push_ts(t, &mut out);
                out.push('"');
            },
        }
        push_str_chars(",\n  \"end\": ", &mut out);
        match &self.end {
            None => push_str_chars("null", &mut out),
            Some(t) => {
                out.push('"');
                push_ts(t, &mut out);
                out.push('"');
            },
        }
        push_str_chars("\n}", &mut out);
        proof {
            assert(out@ =~= spec_save(self@));
        }
        chars_to_string(&out)
    }
}

// ---------------------------------------------------------------------------
// Parsing, as functions from a character sequence to a value and the
// remaining characters.
// ---------------------------------------------------------------------------
/// Consumes the exact characters of `lit` from the front of `s`.
pub open spec fn spec_parse_lit(s: Seq<char>, lit: Seq<char>) -> Option<Seq<char>> {
    if s.len() >= lit.len() && s.take(lit.len() as int) == lit {
        Some(s.skip(lit.len() as int))
    } else {
        None
    }
}

/// Consumes the single character `c` from the front of `s`.
pub open spec fn spec_parse_char(s: Seq<char>, c: char) -> Option<Seq<char>> {
    if s.len() > 0 && s[0] == c {
        Some(s.drop_first())
    } else {
        None
    }
}

/// Consumes a sign character; the value is true for `-`.
pub open spec fn spec_parse_sign(s: Seq<char>) -> Option<(bool, Seq<char>)> {
    if s.len() > 0 && (s[0] == '+' || s[0] == '-') {
        Some((s[0] == '-', s.drop_first()))
    } else {
        None
    }
}

/// Consumes an escaped name up to and including its closing quote,
/// returning the unescaped characters.
pub open spec fn spec_parse_qchars(s: Seq<char>) -> Option<(Seq<char>, Seq<char>)>
    decreases s.len(),
{
    if s.len() == 0 {
        None
    } else if s[0] == '"' {
        Some((Seq::empty(), s.drop_first()))
    } else if s[0] == '\\' {
        if s.len() >= 2 && (s[1] == '"' || s[1] == '\\') {
            match spec_parse_qchars(s.skip(2)) {
                Some(p) => Some((seq![s[1]] + p.0, p.1)),
                None => None,
            }
        } else {
            None
        }
    } else {
        match spec_parse_qchars(s.drop_first()) {
            Some(p) => Some((seq![s[0]] + p.0, p.1)),
            None => None,
        }
    }
}

/// Consumes a stored timestamp: signed six-digit year, date, clock fields
/// and signed offset, accepted only when the fields form a valid reading.
pub open spec fn spec_parse_ts(s: Seq<char>) -> Option<(Timestamp, Seq<char>)> {
    match spec_parse_sign(s) {
        None => None,
        Some((yneg, r1)) => match spec_parse_fixed(r1, 6) {
            None => None,
            Some((yabs, r2)) => match spec_parse_char(r2, '-') {
                None => None,
                Some(r3) => match spec_parse_fixed(r3, 2) {
                    None => None,
                    Some((mo, r4)) => match spec_parse_char(r4, '-') {
                        None => None,
                        Some(r5) => match spec_parse_fixed(r5, 2) {
                            None => None,
                            Some((dd, r6)) => match spec_parse_char(r6, 'T') {
                                None => None,
                                Some(r7) => match spec_parse_fixed(r7, 2) {
                                    None => None,
                                    Some((hh, r8)) => match spec_parse_char(r8, ':') {
                                        None => None,
                                        Some(r9) => match spec_parse_fixed(r9, 2) {
                                            None => None,
                                            Some((mi, r10)) => match spec_parse_char(r10, ':') {
                                                None => None,
                                                Some(r11) => match spec_parse_fixed(r11, 2) {
                                                    None => None,
                                                    Some((ss, r12)) => match spec_parse_sign(r12) {
                                                        None => None,
                                                        Some((oneg, r13)) => match spec_parse_fixed(
                                                            r13,
                                                            2,
                                                        ) {
                                                            None => None,
                                                            Some((ohh, r14)) => match spec_parse_char(
                                                                r14,
                                                                ':',
                                                            ) {
                                                                None => None,
                                                                Some(r15) => match spec_parse_fixed(
                                                                    r15,
                                                                    2,
                                                                ) {
                                                                    None => None,
                                                                    Some((omm, r16)) =>
                                                                    spec_ts_from_fields(
                                                                        yneg,
                                                                        yabs,
                                                                        mo,
                                                                        dd,
                                                                        hh,
                                                                        mi,
                                                                        ss,
                                                                        oneg,
                                                                        ohh,
                                                                        omm,
                                                                        r16,
                                                                    ),
                                                                },
                                                            },
                                                        },
                                                    },
                                                },
                                            },
                                        },
                                    },
                                },
                            },
                        },
                    },
                },
            },
        },
    }
}

/// Assembles the parsed timestamp fields, rejecting any combination that is
/// not a valid calendar reading.
pub open spec fn spec_ts_from_fields(
    yneg: bool,
    yabs: int,
    mo: int,
    dd: int,
    hh: int,
    mi: int,
    ss: int,
    oneg: bool,
    ohh: int,
    omm: int,
    rest: Seq<char>,
) -> Option<(Timestamp, Seq<char>)> {
    let year = if yneg {
        -yabs
    } else {
        yabs
    };
    let off = if oneg {
        -(ohh * 60 + omm)
    } else {
        ohh * 60 + omm
    };
    if -262144 <= year <= 262143 && 1 <= mo <= 12 && 1 <= dd && dd <= spec_days_in_month(year, mo)
        && hh <= 23 && mi <= 59 && ss <= 59 && ohh <= 23 && omm <= 59 {
        Some(
            (
                Timestamp {
                    year: year as i32,
                    month: mo as u8,
                    day: dd as u8,
                    hour: hh as u8,
                    minute: mi as u8,
                    second: ss as u8,
                    offset_minutes: off as i32,
                },
                rest,
            ),
        )
    } else {
        None
    }
}

/// Consumes `null` or a quoted escaped name.
pub open spec fn spec_parse_opt_name(s: Seq<char>) -> Option<(Option<Seq<char>>, Seq<char>)> {
    match spec_parse_lit(s, "null"@) {
        Some(r) => Some((None, r)),
        None => if s.len() > 0 && s[0] == '"' {
            match spec_parse_qchars(s.drop_first()) {
                Some(p) => Some((Some(p.0), p.1)),
                None => None,
            }
        } else {
            None
        },
    }
}

/// Consumes `null` or a quoted stored timestamp.
pub open spec fn spec_parse_opt_ts(s: Seq<char>) -> Option<(Option<Timestamp>, Seq<char>)> {
    match spec_parse_lit(s, "null"@) {
        Some(r) => Some((None, r)),
        None => if s.len() > 0 && s[0] == '"' {
            match spec_parse_ts(s.drop_first()) {
                Some((t, r)) => match spec_parse_char(r, '"') {
                    Some(r2) => Some((Some(t), r2)),
                    None => None,
                },
                None => None,
            }
        } else {
            None
        },
    }
}

/// Parses a whole stored record.  The result is `Some` exactly for the
/// well-formed records' stored forms: the input must be consumed entirely
/// and the fields must satisfy the record invariant.
pub open spec fn spec_parse(s: Seq<char>) -> Option<SpecTimerData> {
    match spec_parse_lit(s, "{\n  \"name\": "@) {
        None => None,
        Some(r1) => match spec_parse_opt_name(r1) {
            None => None,
            Some((name, r2)) => match spec_parse_lit(r2, ",\n  \"start\": "@) {
                None => None,
                Some(r3) => match spec_parse_opt_ts(r3) {
                    None => None,
                    Some((start, r4)) => match spec_parse_lit(r4, ",\n  \"end\": "@) {
                        None => None,
                        Some(r5) => match spec_parse_opt_ts(r5) {
                            None => None,
                            Some((end, r6)) => match spec_parse_lit(r6, "\n}"@) {
                                None => None,
                                Some(r7) => {
                                    let d = SpecTimerData { name, start, end };
                                    if r7.len() == 0 && d.wf() {
                                        Some(d)
                                    } else {
                                        None
                                    }
                                },
                            },
                        },
                    },
                },
            },
        },
    }
}

// ---------------------------------------------------------------------------
// The executable parser.
// ---------------------------------------------------------------------------
/// Consumes the characters of `lit` at position `i` of `v`.
fn expect_lit(v: &Vec<char>, i: usize, lit: &str) -> (r: Option<usize>)
    requires
        i <= v@.len(),
    ensures
        match r {
            Some(j) => spec_parse_lit(v@.skip(i as int), lit@) == Some(v@.skip(j as int)) && i <= j
                <= v@.len(),
            None => spec_parse_lit(v@.skip(i as int), lit@) is None,
        },
{
    let n = lit.unicode_len();
    if v.len() - i < n {
        return None;
    }
    let mut k: usize = 0;
    while k < n
        invariant
            i + n <= v@.len(),
            v@.len() <= usize::MAX,
            k <= n,
            n == lit@.len(),
            forall|q: int| 0 <= q < k ==> v@[i + q] == lit@[q],
        decreases n - k,
    {
        if v[i + k] != lit.get_char(k) {
            proof {
                let s = v@.skip(i as int);
                assert(s.take(n as int)[k as int] == v@[i + k]);
            }
            return None;
        }
        k = k + 1;
    }
    proof {
        let s = v@.skip(i as int);
        assert(s.take(n as int) =~= lit@);
        assert(s.skip(n as int) =~= v@.skip((i + n) as int));
    }
    Some(i + n)
}

/// Consumes the single character `c` at position `i` of `v`.
fn expect_char(v: &Vec<char>, i: usize, c: char) -> (r: Option<usize>)
    requires
        i <= v@.len(),
    ensures
        match r {
            Some(j) => spec_parse_char(v@.skip(i as int), c) == Some(v@.skip(j as int)) && j == i
                + 1 && j <= v@.len(),
            None => spec_parse_char(v@.skip(i as int), c) is None,
        },
{
    if i < v.len() && v[i] == c {
        proof {
            assert(v@.skip(i as int)[0] == v@[i as int]);
            assert(v@.skip(i as int).drop_first() =~= v@.skip(i + 1 as int));
        }
        Some(i + 1)
    } else {
        proof {
            if i < v@.len() {
                assert(v@.skip(i as int)[0] == v@[i as int]);
            }
        }
        None
    }
}

/// Consumes a sign character at position `i` of `v`; true means negative.
fn read_sign(v: &Vec<char>, i: usize) -> (r: Option<(bool, usize)>)
    requires
        i <= v@.len(),
    ensures
        match r {
            Some(p) => spec_parse_sign(v@.skip(i as int)) == Some((p.0, v@.skip(p.1 as int)))
                && p.1 == i + 1 && p.1 <= v@.len(),
            None => spec_parse_sign(v@.skip(i as int)) is None,
        },
{
    if i < v.len() && (v[i] == '+' || v[i] == '-') {
        proof {
            assert(v@.skip(i as int)[0] == v@[i as int]);
            assert(v@.skip(i as int).drop_first() =~= v@.skip(i + 1 as int));
        }
        Some((v[i] == '-', i + 1))
    } else {
        proof {
            if i < v@.len() {
                assert(v@.skip(i as int)[0] == v@[i as int]);
            }
        }
        None
    }
}

/// Consumes an escaped name up to its closing quote, starting at position
/// `i` of `v`.
fn read_qstring(v: &Vec<char>, i: usize) -> (r: Option<(Vec<char>, usize)>)
    requires
        i <= v@.len(),
    ensures
        match r {
            Some(p) => spec_parse_qchars(v@.skip(i as int)) == Some((p.0@, v@.skip(p.1 as int)))
                && i <= p.1 <= v@.len(),
            None => spec_parse_qchars(v@.skip(i as int)) is None,
        },
{
    let mut acc: Vec<char> = Vec::new();
    let mut j: usize = i;
    let n = v.len();
    proof {
        assert(n == v@.len());
        match spec_parse_qchars(v@.skip(i as int)) {
            Some(p) => {
                assert(Seq::<char>::empty() + p.0 =~= p.0);
            },
            None => {},
        }
    }
    loop
        invariant
            i <= j <= v@.len(),
            v@.len() <= usize::MAX,
            match spec_parse_qchars(v@.skip(j as int)) {
                Some(p) => spec_parse_qchars(v@.skip(i as int)) == Some((acc@ + p.0, p.1)),
                None => spec_parse_qchars(v@.skip(i as int)) is None,
            },
        decreases v@.len() - j,
    {
        if j >= v.len() {
            return None;
        }
        let c = v[j];
        proof {
            assert(v@.skip(j as int)[0] == v@[j as int]);
        }
        if c == '"' {
            proof {
                assert(v@.skip(j as int).drop_first() =~= v@.skip(j + 1 as int));
                assert(acc@ + Seq::<char>::empty() =~= acc@);
            }
            return Some((acc, j + 1));
        } else if c == '\\' {
            if v.len() - j < 2 {
                return None;
            }
            let c2 = v[j + 1];
            proof {
                assert(v@.skip(j as int)[1] == v@[j + 1 as int]);
            }
            if c2 == '"' || c2 == '\\' {
                proof {
                    assert(v@.skip(j as int).skip(2) =~= v@.skip(j + 2 as int));
                    match spec_parse_qchars(v@.skip(j + 2 as int)) {
                        Some(p) => {
                            assert((acc@ + seq![c2]) + p.0 =~= acc@ + (seq![c2] + p.0));
                        },
                        None => {},
                    }
                }
                acc.push(c2);
                j = j + 2;
            } else {
                return None;
            }
        } else {
            proof {
                assert(v@.skip(j as int).drop_first() =~= v@.skip(j + 1 as int));
                match spec_parse_qchars(v@.skip(j + 1 as int)) {
                    Some(p) => {
                        assert((acc@ + seq![c]) + p.0 =~= acc@ + (seq![c] + p.0));
                    },
                    None => {},
                }
            }
            acc.push(c);
            j = j + 1;
        }
    }
}

/// Consumes a stored timestamp at position `i` of `v`.
#[verifier::rlimit(100)]
fn read_ts(v: &Vec<char>, i: usize) -> (r: Option<(Timestamp, usize)>)
    requires
        i <= v@.len(),
    ensures
        match r {
            Some(p) => spec_parse_ts(v@.skip(i as int)) == Some((p.0, v@.skip(p.1 as int)))
                && p.0.wf() && i <= p.1 <= v@.len(),
            None => spec_parse_ts(v@.skip(i as int)) is None,
        },
{
    let (yneg, j1) = match read_sign(v, i) {
        Some(p) => p,
        None => {
            return None;
        },
    };
    let (yabs, j2) = match read_fixed(v, j1, 6) {
        Some(p) => p,
        None => {
            return None;
        },
    };
    let j3 = match expect_char(v, j2, '-') {
        Some(j) => j,
        None => {
            return None;
        },
    };
    let (mo, j4) = match read_fixed(v, j3, 2) {
        Some(p) => p,
        None => {
            return None;
        },
    };
    let j5 = match expect_char(v, j4, '-') {
        Some(j) => j,
        None => {
            return None;
        },
    };
    let (dd, j6) = match read_fixed(v, j5, 2) {
        Some(p) => p,
        None => {
            return None;
        },
    };
    let j7 = match expect_char(v, j6, 'T') {
        Some(j) => j,
        None => {
            return None;
        },
    };
    let (hh, j8) = match read_fixed(v, j7, 2) {
        Some(p) => p,
        None => {
            return None;
        },
    };
    let j9 = match expect_char(v, j8, ':') {
        Some(j) => j,
        None => {
            return None;
        },
    };
    let (mi, j10) = match read_fixed(v, j9, 2) {
        Some(p) => p,
        None => {
            return None;
        },
    };
    let j11 = match expect_char(v, j10, ':') {
        Some(j) => j,
        None => {
            return None;
        },
    };
    let (ss, j12) = match read_fixed(v, j11, 2) {
        Some(p) => p,
        None => {
            return None;
        },
    };
    let (oneg, j13) = match read_sign(v, j12) {
        Some(p) => p,
        None => {
            return None;
        },
    };
    let (ohh, j14) = match read_fixed(v, j13, 2) {
        Some(p) => p,
        None => {
            return None;
        },
    };
    let j15 = match expect_char(v, j14, ':') {
        Some(j) => j,
        None => {
            return None;
        },
    };
    let (omm, j16) = match read_fixed(v, j15, 2) {
        Some(p) => p,
        None => {
            return None;
        },
    };
    let year: i64 = if yneg {
        -(yabs as i64)
    } else {
        yabs as i64
    };
    if year < -262144 || year > 262143 {
        return None;
    }
    if mo < 1 || mo > 12 {
        return None;
    }
    let dim = days_in_month(year as i32, mo as u8);
    if dd < 1 || dd > dim as u64 {
        return None;
    }
    if hh > 23 || mi > 59 || ss > 59 {
        return None;
    }
    if ohh > 23 || omm > 59 {
        return None;
    }
    let off: i64 = if oneg {
        -((ohh * 60 + omm) as i64)
    } else {
        (ohh * 60 + omm) as i64
    };
    let t = Timestamp {
        year: year as i32,
        month: mo as u8,
        day: dd as u8,
        hour: hh as u8,
        minute: mi as u8,
        second: ss as u8,
        offset_minutes: off as i32,
    };
    Some((t, j16))
}

/// Consumes `null` or a quoted escaped name at position `i` of `v`.
fn read_opt_name(v: &Vec<char>, i: usize) -> (r: Option<(Option<String>, usize)>)
    requires
        i <= v@.len(),
    ensures
        match r {
            Some(p) => spec_parse_opt_name(v@.skip(i as int)) == Some(
                (
                    match p.0 {
                        Some(s) => Some(s@),
                        None => None::<Seq<char>>,
                    },
                    v@.skip(p.1 as int),
                ),
            ) && i <= p.1 <= v@.len(),
            None => spec_parse_opt_name(v@.skip(i as int)) is None,
        },
{
    match expect_lit(v, i, "null") {
        Some(j) => Some((None, j)),
        None => {
            if i < v.len() && v[i] == '"' {
                proof {
                    assert(v@.skip(i as int)[0] == v@[i as int]);
                    assert(v@.skip(i as int).drop_first() =~= v@.skip(i + 1 as int));
                }
                match read_qstring(v, i + 1) {
                    Some((nm, j)) => Some((Some(chars_to_string(&nm)), j)),
                    None => None,
                }
            } else {
                proof {
                    if i < v@.len() {
                        assert(v@.skip(i as int)[0] == v@[i as int]);
                    }
                }
                None
            }
        },
    }
}

/// Consumes `null` or a quoted stored timestamp at position `i` of `v`.
fn read_opt_ts(v: &Vec<char>, i: usize) -> (r: Option<(Option<Timestamp>, usize)>)
    requires
        i <= v@.len(),
    ensures
        match r {
            Some(p) => spec_parse_opt_ts(v@.skip(i as int)) == Some(
                (p.0, v@.skip(p.1 as int)),
            ) && (p.0 matches Some(t) ==> t.wf()) && i <= p.1 <= v@.len(),
            None => spec_parse_opt_ts(v@.skip(i as int)) is None,
        },
{
    match expect_lit(v, i, "null") {
        Some(j) => Some((None, j)),
        None => {
            if i < v.len() && v[i] == '"' {
                proof {
                    assert(v@.skip(i as int)[0] == v@[i as int]);
                    assert(v@.skip(i as int).drop_first() =~= v@.skip(i + 1 as int));
                }
                match read_ts(v, i + 1) {
                    Some((t, j)) => match expect_char(v, j, '"') {
                        Some(j2) => Some((Some(t), j2)),
                        None => None,
                    },
                    None => None,
                }
            } else {
                proof {
                    if i < v@.len() {
                        assert(v@.skip(i as int)[0] == v@[i as int]);
                    }
                }
                None
            }
        },
    }
}

impl TimerData {
    /// Reconstructs a record from the persisted text, or from an absent
    /// file.
    ///
    /// An absent file (`None`) yields a fresh idle record: that is not an
    /// error.  Text in exactly the stored form of a well-formed record
    /// yields that record; anything else, including a record whose end
    /// precedes its start, fails with [`TimerError::CorruptState`] rather
    /// than silently discarding timing data.
    pub fn load(content: Option<&str>) -> (r: Result<TimerData, TimerError>)
        ensures
            match content {
                None => r matches Ok(rec) && rec@ == spec_idle() && rec.wf(),
                Some(s) => match spec_parse(s@) {
                    Some(d) => r matches Ok(rec) && rec@ == d && rec.wf(),
                    None => r == Err::<TimerData, TimerError>(TimerError::CorruptState),
                },
            },
    {
        let s = match content {
            None => {
                return Ok(TimerData::new());
            },
            Some(s) => s,
        };
        let v = str_to_chars(s);
        proof {
            assert(v@.skip(0) =~= v@);
        }
        let i1 = match expect_lit(&v, 0, "{\n  \"name\": ") {
            Some(j) => j,
            None => {
                return Err(TimerError::CorruptState);
            },
        };
        let (name, i2) = match read_opt_name(&v, i1) {
            Some(p) => p,
            None => {
                return Err(TimerError::CorruptState);
            },
        };
        let i3 = match expect_lit(&v, i2, ",\n  \"start\": ") {
            Some(j) => j,
            None => {
                return Err(TimerError::CorruptState);
            },
        };
        let (start, i4) = match read_opt_ts(&v, i3) {
            Some(p) => p,
            None => {
                return Err(TimerError::CorruptState);
            },
        };
        let i5 = match expect_lit(&v, i4, ",\n  \"end\": ") {
            Some(j) => j,
            None => {
                return Err(TimerError::CorruptState);
            },
        };
        let (end, i6) = match read_opt_ts(&v, i5) {
            Some(p) => p,
            None => {
                return Err(TimerError::CorruptState);
            },
        };
        let i7 = match expect_lit(&v, i6, "\n}") {
            Some(j) => j,
            None => {
                return Err(TimerError::CorruptState);
            },
        };
        if i7 != v.len() {
            return Err(TimerError::CorruptState);
        }
        let ok = match (&start, &end) {
            (None, Some(_)) => false,
            (Some(a), Some(b)) => a.epoch_seconds() <= b.epoch_seconds(),
            _ => true,
        };
        if !ok {
            return Err(TimerError::CorruptState);
        }
        Ok(TimerData { name, start, end })
    }
}

// ---------------------------------------------------------------------------
// The round trip: parsing a stored record recovers it exactly.
// ---------------------------------------------------------------------------
/// A literal at the front of the input is consumed exactly.
pub proof fn lemma_parse_lit_round(lit: Seq<char>, rest: Seq<char>)
    ensures
        spec_parse_lit(lit + rest, lit) == Some(rest),
{
    let s = lit + rest;
    assert(s.take(lit.len() as int) =~= lit);
    assert(s.skip(lit.len() as int) =~= rest);
}

/// A single character at the front of the input is consumed exactly.
pub proof fn lemma_parse_char_round(c: char, rest: Seq<char>)
    ensures
        spec_parse_char(seq![c] + rest, c) == Some(rest),
{
    assert((seq![c] + rest)[0] == c);
    assert((seq![c] + rest).drop_first() =~= rest);
}

/// Reading back an escaped name recovers the original characters.
pub proof fn lemma_parse_qchars_round(nm: Seq<char>, rest: Seq<char>)
    ensures
        spec_parse_qchars(spec_escape(nm) + seq!['"'] + rest) == Some((nm, rest)),
    decreases nm.len(),
{
    let s = spec_escape(nm) + seq!['"'] + rest;
    if nm.len() == 0 {
        assert(s =~= seq!['"'] + rest);
        assert(s[0] == '"');
        assert(s.drop_first() =~= rest);
    } else {
        let c = nm[0];
        let tail = nm.drop_first();
        lemma_parse_qchars_round(tail, rest);
        let inner = spec_escape(tail) + seq!['"'] + rest;
        if c == '"' || c == '\\' {
            assert(s =~= seq!['\\', c] + inner);
            assert(s[0] == '\\');
            assert(s[1] == c);
            assert(s.len() >= 2);
            assert(s.skip(2) =~= inner);
            assert(seq![c] + tail =~= nm);
        } else {
            assert(s =~= seq![c] + inner);
            assert(s[0] == c);
            assert(s.drop_first() =~= inner);
            assert(seq![c] + tail =~= nm);
        }
    }
}

/// Reading back a stored timestamp recovers the reading and leaves the
/// trailing characters untouched.
#[verifier::rlimit(100)]
pub proof fn lemma_parse_ts_round(t: Timestamp, rest: Seq<char>)
    requires
        t.wf(),
    ensures
        spec_parse_ts(spec_ts_chars(t) + rest) == Some((t, rest)),
{
    lemma_pow10_values();
    let yabs = abs(t.year as int) as int;
    let oabs = abs(t.offset_minutes as int) as int;
    let ohh = oabs / 60;
    let omm = oabs % 60;
    assert(1439int / 60 == 23);
    lemma_div_is_ordered(oabs, 1439, 60);
    vstd::arithmetic::div_mod::lemma_div_pos_is_pos(oabs, 60);
    lemma_mod_bound(oabs, 60);
    let ysign: Seq<char> = if t.year < 0 {
        seq!['-']
    } else {
        seq!['+']
    };
    let osign: Seq<char> = if t.offset_minutes < 0 {
        seq!['-']
    } else {
        seq!['+']
    };
    let r16 = rest;
    let r15 = spec_dec_fixed(omm, 2) + r16;
    let r14 = seq![':'] + r15;
    let r13 = spec_dec_fixed(ohh, 2) + r14;
    let r12 = osign + r13;
    let r11 = spec_dec_fixed(t.second as int, 2) + r12;
    let r10 = seq![':'] + r11;
    let r9 = spec_dec_fixed(t.minute as int, 2) + r10;
    let r8 = seq![':'] + r9;
    let r7 = spec_dec_fixed(t.hour as int, 2) + r8;
    let r6 = seq!['T'] + r7;
    let r5 = spec_dec_fixed(t.day as int, 2) + r6;
    let r4 = seq!['-'] + r5;
    let r3 = spec_dec_fixed(t.month as int, 2) + r4;
    let r2 = seq!['-'] + r3;
    let r1 = spec_dec_fixed(yabs, 6) + r2;
    let s = spec_ts_chars(t) + rest;
    assert(s =~= ysign + r1);
    assert(spec_parse_sign(s) == Some((t.year < 0, r1))) by {
        assert((ysign + r1)[0] == ysign[0]);
        assert((ysign + r1).drop_first() =~= r1);
    }
    lemma_parse_dec_fixed(yabs, 6, r2);
    lemma_parse_char_round('-', r3);
    lemma_parse_dec_fixed(t.month as int, 2, r4);
    lemma_parse_char_round('-', r5);
    lemma_parse_dec_fixed(t.day as int, 2, r6);
    lemma_parse_char_round('T', r7);
    lemma_parse_dec_fixed(t.hour as int, 2, r8);
    lemma_parse_char_round(':', r9);
    lemma_parse_dec_fixed(t.minute as int, 2, r10);
    lemma_parse_char_round(':', r11);
    lemma_parse_dec_fixed(t.second as int, 2, r12);
    assert(spec_parse_sign(r12) == Some((t.offset_minutes < 0, r13))) by {
        assert((osign + r13)[0] == osign[0]);
        assert((osign + r13).drop_first() =~= r13);
    }
    lemma_parse_dec_fixed(ohh, 2, r14);
    lemma_parse_char_round(':', r15);
    lemma_parse_dec_fixed(omm, 2, r16);
    assert(spec_ts_from_fields(
        t.year < 0,
        yabs,
        t.month as int,
        t.day as int,
        t.hour as int,
        t.minute as int,
        t.second as int,
        t.offset_minutes < 0,
        ohh,
        omm,
        rest,
    ) == Some((t, rest))) by {
        lemma_fundamental_div_mod(oabs, 60);
        assert(ohh * 60 + omm == oabs);
    }
}

/// Reading back a stored optional name recovers it.
pub proof fn lemma_parse_opt_name_round(n: Option<Seq<char>>, rest: Seq<char>)
    ensures
        spec_parse_opt_name(spec_opt_name_chars(n) + rest) == Some((n, rest)),
{
    let s = spec_opt_name_chars(n) + rest;
    match n {
        None => {
            lemma_parse_lit_round("null"@, rest);
        },
        Some(nm) => {
            reveal_strlit("null");
            assert(s[0] == '"');
            assert(spec_parse_lit(s, "null"@) is None) by {
                if s.len() >= 4 && s.take(4) == "null"@ {
                    assert(s.take(4)[0] == s[0]);
                    assert("null"@[0] == 'n');
                    assert(false);
                }
            }
            assert(s.drop_first() =~= spec_escape(nm) + seq!['"'] + rest);
            lemma_parse_qchars_round(nm, rest);
        },
    }
}

/// Reading back a stored optional timestamp recovers it.
pub proof fn lemma_parse_opt_ts_round(topt: Option<Timestamp>, rest: Seq<char>)
    requires
        topt matches Some(t) ==> t.wf(),
    ensures
        spec_parse_opt_ts(spec_opt_ts_chars(topt) + rest) == Some((topt, rest)),
{
    let s = spec_opt_ts_chars(topt) + rest;
    match topt {
        None => {
            lemma_parse_lit_round("null"@, rest);
        },
        Some(t) => {
            reveal_strlit("null");
            assert(s[0] == '"');
            assert(spec_parse_lit(s, "null"@) is None) by {
                if s.len() >= 4 && s.take(4) == "null"@ {
                    assert(s.take(4)[0] == s[0]);
                    assert("null"@[0] == 'n');
                    assert(false);
                }
            }
            assert(s.drop_first() =~= spec_ts_chars(t) + (seq!['"'] + rest));
            lemma_parse_ts_round(t, seq!['"'] + rest);
            lemma_parse_char_round('"', rest);
        },
    }
}

/// The round trip law: the stored form of any well-formed record parses
/// back to exactly that record, so saving and loading is the identity.
#[verifier::rlimit(100)]
pub proof fn lemma_save_parse_round_trip(d: SpecTimerData)
    requires
        d.wf(),
    ensures
        spec_parse(spec_save(d)) == Some(d),
{
    let l1 = "{\n  \"name\": "@;
    let l2 = ",\n  \"start\": "@;
    let l3 = ",\n  \"end\": "@;
    let l4 = "\n}"@;
    let r_f: Seq<char> = l4;
    let r_e = spec_opt_ts_chars(d.end) + r_f;
    let r_d = l3 + r_e;
    let r_c = spec_opt_ts_chars(d.start) + r_d;
    let r_b = l2 + r_c;
    let r_a = spec_opt_name_chars(d.name) + r_b;
    let s = spec_save(d);
    assert(s =~= l1 + r_a);
    lemma_parse_lit_round(l1, r_a);
    lemma_parse_opt_name_round(d.name, r_b);
    lemma_parse_lit_round(l2, r_c);
    lemma_parse_opt_ts_round(d.start, r_d);
    lemma_parse_lit_round(l3, r_e);
    lemma_parse_opt_ts_round(d.end, r_f);
    lemma_parse_lit_round(l4, Seq::<char>::empty());
    assert(l4 + Seq::<char>::empty() =~= l4);
    assert(SpecTimerData { name: d.name, start: d.start, end: d.end } == d);
}

} // verus!

