use vstd::prelude::*;
use vstd::arithmetic::div_mod::{
    lemma_fundamental_div_mod, lemma_mod_bound, lemma_multiply_divide_lt,
};

verus! {

/// Ten to the power `w`.
pub open spec fn spec_pow10(w: nat) -> int
    decreases w,
{
    if w == 0 {
        1
    } else {
        10 * spec_pow10((w - 1) as nat)
    }
}

/// The concrete powers of ten used by the fixed-width fields of the
/// persisted format.
pub proof fn lemma_pow10_values()
    ensures
        spec_pow10(0) == 1,
        spec_pow10(1) == 10,
        spec_pow10(2) == 100,
        spec_pow10(3) == 1000,
        spec_pow10(4) == 10000,
        spec_pow10(5) == 100000,
        spec_pow10(6) == 1000000,
{
    reveal_with_fuel(spec_pow10, 8);
}

/// The decimal digit character for `d`.
pub open spec fn spec_digit_char(d: int) -> char {
    if d == 1 {
        '1'
    } else if d == 2 {
        '2'
    } else if d == 3 {
        '3'
    } else if d == 4 {
        '4'
    } else if d == 5 {
        '5'
    } else if d == 6 {
        '6'
    } else if d == 7 {
        '7'
    } else if d == 8 {
        '8'
    } else if d == 9 {
        '9'
    } else {
        '0'
    }
}

/// The lowercase hexadecimal digit character for `d`.
pub open spec fn spec_hex_digit_char(d: int) -> char {
    if d == 10 {
        'a'
    } else if d == 11 {
        'b'
    } else if d == 12 {
        'c'
    } else if d == 13 {
        'd'
    } else if d == 14 {
        'e'
    } else if d == 15 {
        'f'
    } else {
        spec_digit_char(d)
    }
}

/// The value of a decimal digit character, or `None` for any other
/// character.
pub open spec fn spec_digit_val(c: char) -> Option<int> {
    if c == '0' {
        Some(0)
    } else if c == '1' {
        Some(1)
    } else if c == '2' {
        Some(2)
    } else if c == '3' {
        Some(3)
    } else if c == '4' {
        Some(4)
    } else if c == '5' {
        Some(5)
    } else if c == '6' {
        Some(6)
    } else if c == '7' {
        Some(7)
    } else if c == '8' {
        Some(8)
    } else if c == '9' {
        Some(9)
    } else {
        None
    }
}

/// The ordinary decimal rendering of `n >= 0`, without leading zeros.
pub open spec fn spec_dec_digits(n: int) -> Seq<char>
    recommends
        n >= 0,
    decreases n,
{
    if n < 10 {
        seq![spec_digit_char(n)]
    } else {
        spec_dec_digits(n / 10) + seq![spec_digit_char(n % 10)]
    }
}

/// The decimal rendering of `n` in exactly `w` digits, most significant
/// first, zero-padded on the left.
pub open spec fn spec_dec_fixed(n: int, w: nat) -> Seq<char>
    recommends
        0 <= n < spec_pow10(w),
    decreases w,
{
    if w == 0 {
        Seq::empty()
    } else {
        spec_dec_fixed(n / 10, (w - 1) as nat) + seq![spec_digit_char(n % 10)]
    }
}

/// The lowercase hexadecimal rendering of `n >= 0`, without leading zeros.
pub open spec fn spec_hex_digits(n: int) -> Seq<char>
    recommends
        n >= 0,
    decreases n,
{
    if n < 16 {
        seq![spec_hex_digit_char(n)]
    } else {
        spec_hex_digits(n / 16) + seq![spec_hex_digit_char(n % 16)]
    }
}

/// Reads exactly `w` decimal digits from the front of `s`: the value they
/// denote and the remainder of `s`, or `None` if `s` is shorter than `w`
/// characters or one of them is not a digit.
pub open spec fn spec_parse_fixed(s: Seq<char>, w: nat) -> Option<(int, Seq<char>)>
    decreases w,
{
    if w == 0 {
        Some((0, s))
    } else {
        match spec_parse_fixed(s, (w - 1) as nat) {
            Some((v, rest)) => {
                if rest.len() > 0 {
                    match spec_digit_val(rest[0]) {
                        Some(d) => Some((v * 10 + d, rest.drop_first())),
                        None => None,
                    }
                } else {
                    None
                }
            },
            None => None,
        }
    }
}

/// What a successful fixed-width read implies: it consumed exactly `w`
/// characters and produced a value below ten to the `w`.
pub proof fn lemma_parse_fixed_props(s: Seq<char>, w: nat)
    ensures
        spec_parse_fixed(s, w) matches Some(p) ==> {
            &&& s.len() >= w
            &&& p.1 =~= s.skip(w as int)
            &&& 0 <= p.0 < spec_pow10(w)
        },
    decreases w,
{
    if w > 0 {
        lemma_parse_fixed_props(s, (w - 1) as nat);
        if spec_parse_fixed(s, w) matches Some(p) {
            let q = spec_parse_fixed(s, (w - 1) as nat).unwrap();
            assert(q.1.drop_first() =~= s.skip(w as int));
        }
    }
}

/// A failed fixed-width read stays failed for any larger width.
pub proof fn lemma_parse_fixed_none_mono(s: Seq<char>, w1: nat, w2: nat)
    requires
        w1 <= w2,
        spec_parse_fixed(s, w1) is None,
    ensures
        spec_parse_fixed(s, w2) is None,
    decreases w2,
{
    if w2 > w1 {
        lemma_parse_fixed_none_mono(s, w1, (w2 - 1) as nat);
    }
}

/// Reading back a fixed-width rendering recovers the value and leaves the
/// trailing characters untouched.
pub proof fn lemma_parse_dec_fixed(n: int, w: nat, rest: Seq<char>)
    requires
        0 <= n < spec_pow10(w),
    ensures
        spec_parse_fixed(spec_dec_fixed(n, w) + rest, w) == Some((n, rest)),
    decreases w,
{
    if w == 0 {
        assert(spec_dec_fixed(n, 0) + rest =~= rest);
    } else {
        let d = n % 10;
        let tail = seq![spec_digit_char(d)] + rest;
        lemma_mod_bound(n, 10);
        lemma_multiply_divide_lt(n, spec_pow10((w - 1) as nat), 10);
        lemma_parse_dec_fixed(n / 10, (w - 1) as nat, tail);
        assert(spec_dec_fixed(n, w) + rest =~= spec_dec_fixed(n / 10, (w - 1) as nat) + tail);
        assert(tail[0] == spec_digit_char(d));
        assert(spec_digit_val(spec_digit_char(d)) == Some(d));
        lemma_fundamental_div_mod(n, 10);
        assert(tail.drop_first() =~= rest);
    }
}

/// The decimal digit character for `d < 10`.
pub fn char_of_digit(d: u64) -> (r: char)
    requires
        d < 10,
    ensures
        r == spec_digit_char(d as int),
{
    match d {
        0 => '0',
        1 => '1',
        2 => '2',
        3 => '3',
        4 => '4',
        5 => '5',
        6 => '6',
        7 => '7',
        8 => '8',
        _ => '9',
    }
}

/// The lowercase hexadecimal digit character for `d < 16`.
pub fn char_of_hex_digit(d: u64) -> (r: char)
    requires
        d < 16,
    ensures
        r == spec_hex_digit_char(d as int),
{
    if d < 10 {
        char_of_digit(d)
    } else {
        match d {
            10 => 'a',
            11 => 'b',
            12 => 'c',
            13 => 'd',
            14 => 'e',
            _ => 'f',
        }
    }
}

/// The value of a decimal digit character, or `None` for any other
/// character.
pub fn digit_of(c: char) -> (r: Option<u64>)
    ensures
        match spec_digit_val(c) {
            Some(d) => r matches Some(x) && x as int == d,
            None => r is None,
        },
{
    match c {
        '0' => Some(0),
        '1' => Some(1),
        '2' => Some(2),
        '3' => Some(3),
        '4' => Some(4),
        '5' => Some(5),
        '6' => Some(6),
        '7' => Some(7),
        '8' => Some(8),
        '9' => Some(9),
        _ => None,
    }
}

/// Appends the decimal rendering of `n` to `out`.
pub fn push_dec(n: u64, out: &mut Vec<char>)
    ensures
        final(out)@ == old(out)@ + spec_dec_digits(n as int),
    decreases n,
{
    if n < 10 {
        out.push(char_of_digit(n));
        proof {
            assert(out@ =~= old(out)@ + spec_dec_digits(n as int));
        }
    } else {
        push_dec(n / 10, out);
        out.push(char_of_digit(n % 10));
        proof {
            assert(out@ =~= old(out)@ + spec_dec_digits(n as int));
        }
    }
}

/// Appends the `w`-digit zero-padded decimal rendering of `n` to `out`.
pub fn push_dec_fixed(n: u64, w: usize, out: &mut Vec<char>)
    ensures
        final(out)@ == old(out)@ + spec_dec_fixed(n as int, w as nat),
    decreases w,
{
    if w > 0 {
        push_dec_fixed(n / 10, w - 1, out);
        out.push(char_of_digit(n % 10));
    }
    proof {
        assert(out@ =~= old(out)@ + spec_dec_fixed(n as int, w as nat));
    }
}

/// Appends the lowercase hexadecimal rendering of `n` to `out`.
pub fn push_hex(n: u64, out: &mut Vec<char>)
    ensures
        final(out)@ == old(out)@ + spec_hex_digits(n as int),
    decreases n,
{
    if n < 16 {
        out.push(char_of_hex_digit(n));
        proof {
            assert(out@ =~= old(out)@ + spec_hex_digits(n as int));
        }
    } else {
        push_hex(n / 16, out);
        out.push(char_of_hex_digit(n % 16));
        proof {
            assert(out@ =~= old(out)@ + spec_hex_digits(n as int));
        }
    }
}

/// Reads exactly `w` decimal digits of `v` starting at index `i`,
/// returning the value and the index just past them, as
/// [`spec_parse_fixed`] describes on the suffix of `v` at `i`.
pub fn read_fixed(v: &Vec<char>, i: usize, w: usize) -> (r: Option<(u64, usize)>)
    requires
        i <= v@.len(),
        w <= 6,
    ensures
        match r {
            Some(p) => {
                &&& spec_parse_fixed(v@.skip(i as int), w as nat) == Some(
                    (p.0 as int, v@.skip(p.1 as int)),
                )
                &&& p.1 == i + w
                &&& p.1 <= v@.len()
                &&& p.0 < 1000000
            },
            None => spec_parse_fixed(v@.skip(i as int), w as nat) is None,
        },
{
    proof {
        lemma_pow10_values();
    }
    let ghost s = v@.skip(i as int);
    if v.len() - i < w {
        proof {
            lemma_parse_fixed_props(s, w as nat);
        }
        return None;
    }
    let mut acc: u64 = 0;
    let mut k: usize = 0;
    while k < w
        invariant
            i + w <= v@.len(),
            v@.len() <= usize::MAX,
            w <= 6,
            k <= w,
            s == v@.skip(i as int),
            spec_parse_fixed(s, k as nat) == Some((acc as int, v@.skip((i + k) as int))),
            (acc as int) < spec_pow10(k as nat),
            spec_pow10(6) == 1000000,
        decreases w - k,
    {
        proof {
            lemma_pow10_values();
            assert(v@.skip((i + k) as int)[0] == v@[(i + k) as int]);
        }
        let c = v[i + k];
        match digit_of(c) {
            Some(d) => {
                proof {
                    assert(spec_pow10((k + 1) as nat) == 10 * spec_pow10(k as nat));
                    assert(v@.skip((i + k) as int).drop_first() =~= v@.skip((i + k + 1) as int));
                }
                acc = acc * 10 + d;
                k = k + 1;
            },
            None => {
                proof {
                    assert(spec_parse_fixed(s, (k + 1) as nat) is None);
                    lemma_parse_fixed_none_mono(s, (k + 1) as nat, w as nat);
                }
                return None;
            },
        }
    }
    proof {
        lemma_pow10_values();
    }
    Some((acc, i + w))
}

} // verus!
