//! Numeric readings of values: decimal integer strings, decimal float
//! strings, and the integer part of an IEEE-754 binary64 value.
use vstd::prelude::*;

verus! {

/// `2` raised to `n`.
pub open spec fn two_to(n: nat) -> nat
    decreases n,
{
    if n == 0 {
        1
    } else {
        2 * two_to((n - 1) as nat)
    }
}

/// Whether `c` is an ASCII decimal digit.
pub open spec fn is_digit(c: char) -> bool {
    '0' <= c && c <= '9'
}

/// The value of a run of decimal digits.
pub open spec fn digits_value(s: Seq<char>) -> nat
    decreases s.len(),
{
    if s.len() == 0 {
        0
    } else {
        digits_value(s.drop_last()) * 10 + ((s.last() as u32) - 48) as nat
    }
}

/// Whether every character of `s` is a decimal digit.
pub open spec fn all_digits(s: Seq<char>) -> bool {
    forall|i: int| 0 <= i < s.len() ==> is_digit(#[trigger] s[i])
}

/// Whether `s` starts with a sign.
pub open spec fn int_signed(s: Seq<char>) -> bool {
    s.len() > 0 && (s[0] == '+' || s[0] == '-')
}

/// What follows the sign of `s`, if any.
pub open spec fn int_body(s: Seq<char>) -> Seq<char> {
    if int_signed(s) {
        s.drop_first()
    } else {
        s
    }
}

/// The integer written by `s`: an optional `+` or `-`, then one or more
/// decimal digits, and nothing else.
pub open spec fn parse_int(s: Seq<char>) -> Option<int> {
    let body = int_body(s);
    if body.len() > 0 && all_digits(body) {
        if int_signed(s) && s[0] == '-' {
            Some(-(digits_value(body) as int))
        } else {
            Some(digits_value(body) as int)
        }
    } else {
        None
    }
}

/// A bound past every value that an integer target holds.
pub const DIGITS_CAP: u128 = 0x1_0000_0000_0000_0001;

/// The integer written by the characters of `s`, with its magnitude capped
/// at `DIGITS_CAP`; `None` where `s` writes no integer.
pub fn read_int(s: &Vec<char>) -> (r: Option<(bool, u128)>)
    ensures
        r is None <==> parse_int(s@) is None,
        r matches Some(p) ==> {
            &&& p.1 <= DIGITS_CAP
            &&& parse_int(s@) matches Some(n) && (if p.0 {
                n <= 0
            } else {
                n >= 0
            }) && (if p.1 < DIGITS_CAP {
                (if p.0 {
                    -n
                } else {
                    n
                }) == p.1 as int
            } else {
                (if p.0 {
                    -n
                } else {
                    n
                }) >= DIGITS_CAP as int
            })
        },
{
    let n = s.len();
    let signed = n > 0 && (s[0] == '+' || s[0] == '-');
    let negative = signed && s[0] == '-';
    let start: usize = if signed { 1 } else { 0 };
    let ghost body = int_body(s@);
    if start >= n {
        assert(body.len() == 0);
        return None;
    }
    let mut acc: u128 = 0;
    let mut i: usize = start;
    while i < n
        invariant
            n == s@.len(),
            start <= i <= n,
            start == (if signed { 1int } else { 0int }),
            signed == int_signed(s@),
            negative == (signed && s@[0] == '-'),
            body == int_body(s@),
            body == s@.subrange(start as int, n as int),
            forall|j: int| 0 <= j < i - start ==> is_digit(#[trigger] body[j]),
            acc <= DIGITS_CAP,
            acc < DIGITS_CAP ==> acc as int == digits_value(body.subrange(0, i - start)),
            acc == DIGITS_CAP ==> digits_value(body.subrange(0, i - start)) >= DIGITS_CAP,
        decreases n - i,
    {
        let c = s[i];
        if !('0' <= c && c <= '9') {
            let ghost k = (i - start) as int;
            assert(body[k] == c);
            assert(!is_digit(body[k]));
            assert(0 <= k < body.len());
            assert(!all_digits(body));
            return None;
        }
        let d = (c as u32 - 48) as u128;
        let ghost prev = body.subrange(0, i - start);
        assert(body.subrange(0, i + 1 - start).drop_last() == prev);
        if acc < DIGITS_CAP {
            let next = acc * 10 + d;
            acc = if next > DIGITS_CAP { DIGITS_CAP } else { next };
        }
        i = i + 1;
    }
    assert(body.subrange(0, n - start) == body);
    Some((negative, acc))
}

/// The states of the recogniser for decimal float text: `[+-]?`, digits with
/// an optional fraction (or a fraction alone), then an optional exponent.
pub open spec fn float_step(state: nat, c: char) -> nat {
    let d = is_digit(c);
    let sign = c == '+' || c == '-';
    let e = c == 'e' || c == 'E';
    if state == 0 {
        if sign { 1 } else if d { 2 } else if c == '.' { 4 } else { 9 }
    } else if state == 1 {
        if d { 2 } else if c == '.' { 4 } else { 9 }
    } else if state == 2 {
        if d { 2 } else if c == '.' { 3 } else if e { 6 } else { 9 }
    } else if state == 3 || state == 5 {
        if d { 5 } else if e { 6 } else { 9 }
    } else if state == 4 {
        if d { 5 } else { 9 }
    } else if state == 6 {
        if sign { 7 } else if d { 8 } else { 9 }
    } else if state == 7 || state == 8 {
        if d { 8 } else { 9 }
    } else {
        9
    }
}

/// The recogniser's state after reading `s`.
pub open spec fn float_state(s: Seq<char>) -> nat
    decreases s.len(),
{
    if s.len() == 0 {
        0
    } else {
        float_step(float_state(s.drop_last()), s.last())
    }
}

/// Whether `s` is decimal float text.
pub open spec fn is_float_text(s: Seq<char>) -> bool {
    let q = float_state(s);
    q == 2 || q == 3 || q == 5 || q == 8
}

fn float_step_exec(state: u8, c: char) -> (r: u8)
    requires
        state <= 9,
    ensures
        r as nat == float_step(state as nat, c),
        r <= 9,
{
    let d = '0' <= c && c <= '9';
    let sign = c == '+' || c == '-';
    let e = c == 'e' || c == 'E';
    if state == 0 {
        if sign { 1 } else if d { 2 } else if c == '.' { 4 } else { 9 }
    } else if state == 1 {
        if d { 2 } else if c == '.' { 4 } else { 9 }
    } else if state == 2 {
        if d { 2 } else if c == '.' { 3 } else if e { 6 } else { 9 }
    } else if state == 3 || state == 5 {
        if d { 5 } else if e { 6 } else { 9 }
    } else if state == 4 {
        if d { 5 } else { 9 }
    } else if state == 6 {
        if sign { 7 } else if d { 8 } else { 9 }
    } else if state == 7 || state == 8 {
        if d { 8 } else { 9 }
    } else {
        9
    }
}

/// Whether the characters of `s` are decimal float text.
pub fn check_float_text(s: &Vec<char>) -> (r: bool)
    ensures
        r == is_float_text(s@),
{
    let mut q: u8 = 0;
    let mut i: usize = 0;
    while i < s.len()
        invariant
            i <= s@.len(),
            q <= 9,
            q as nat == float_state(s@.subrange(0, i as int)),
        decreases s@.len() - i,
    {
        assert(s@.subrange(0, i + 1).drop_last() == s@.subrange(0, i as int));
        q = float_step_exec(q, s[i]);
        i = i + 1;
    }
    assert(s@.subrange(0, s@.len() as int) == s@);
    q == 2 || q == 3 || q == 5 || q == 8
}

/// The biased exponent field of a binary64 encoding.
pub open spec fn f64_exponent(bits: u64) -> nat {
    ((bits as nat / 0x10_0000_0000_0000) % 2048) as nat
}

/// The significand of a finite binary64 encoding, with its hidden bit.
pub open spec fn f64_significand(bits: u64) -> nat {
    let m = bits as nat % 0x10_0000_0000_0000;
    if f64_exponent(bits) == 0 {
        m
    } else {
        m + 0x10_0000_0000_0000
    }
}

/// Whether a binary64 encoding has its sign bit set.
pub open spec fn f64_negative(bits: u64) -> bool {
    bits as nat >= 0x8000_0000_0000_0000
}

/// Whether a binary64 encoding holds an infinity or a NaN.
pub open spec fn f64_non_finite(bits: u64) -> bool {
    f64_exponent(bits) == 2047
}

/// Whether a binary64 encoding holds zero of either sign.
pub open spec fn f64_is_zero(bits: u64) -> bool {
    bits as nat % 0x8000_0000_0000_0000 == 0
}

/// The magnitude of a finite binary64 value, truncated toward zero, and
/// whether a nonzero fraction was dropped.
pub open spec fn f64_trunc_magnitude(bits: u64) -> (nat, bool) {
    let e = f64_exponent(bits);
    let e1 = if e == 0 { 1nat } else { e };
    let m = f64_significand(bits);
    if e1 >= 1075 {
        (m * two_to((e1 - 1075) as nat), false)
    } else {
        let p = two_to((1075 - e1) as nat);
        (m / p, m % p != 0)
    }
}

proof fn lemma_two_to_pos(n: nat)
    ensures
        two_to(n) >= 1,
    decreases n,
{
    if n > 0 {
        lemma_two_to_pos((n - 1) as nat);
    }
}

proof fn lemma_two_to_mono(a: nat, b: nat)
    requires
        a <= b,
    ensures
        two_to(a) <= two_to(b),
    decreases b,
{
    if a < b {
        lemma_two_to_mono(a, (b - 1) as nat);
        lemma_two_to_pos((b - 1) as nat);
    }
}

proof fn lemma_two_to_12()
    ensures
        two_to(11) == 2048,
        two_to(12) == 4096,
{
    reveal_with_fuel(two_to, 13);
}

proof fn lemma_two_to_64()
    ensures
        two_to(63) == 0x8000_0000_0000_0000,
        two_to(64) == 0x1_0000_0000_0000_0000,
{
    reveal_with_fuel(two_to, 65);
}

/// The magnitude of a finite binary64 value truncated toward zero, capped at
/// `2^64`, and whether a nonzero fraction was dropped.
pub fn f64_truncate(bits: u64) -> (r: (u128, bool))
    requires
        !f64_non_finite(bits),
    ensures
        r.0 <= 0x1_0000_0000_0000_0000,
        r.0 < 0x1_0000_0000_0000_0000 ==> r.0 as nat == f64_trunc_magnitude(bits).0,
        r.0 == 0x1_0000_0000_0000_0000 ==> f64_trunc_magnitude(bits).0 >= 0x1_0000_0000_0000_0000,
        r.1 == f64_trunc_magnitude(bits).1,
{
    let e = (bits / 0x10_0000_0000_0000) % 2048;
    let raw = bits % 0x10_0000_0000_0000;
    let m: u128 = if e == 0 { raw as u128 } else { raw as u128 + 0x10_0000_0000_0000 };
    let e1: u64 = if e == 0 { 1 } else { e };
    assert(m as nat == f64_significand(bits));
    if e1 >= 1075 {
        let k = e1 - 1075;
        if k >= 12 {
            proof {
                lemma_two_to_mono(12, k as nat);
                lemma_two_to_12();
                assert(m >= 0x10_0000_0000_0000);
                assert(m * two_to(k as nat) >= 0x10_0000_0000_0000 * 4096) by (nonlinear_arith)
                    requires m >= 0x10_0000_0000_0000, two_to(k as nat) >= 4096;
            }
            return (0x1_0000_0000_0000_0000, false);
        }
        let mut p: u128 = 1;
        let mut j: u64 = 0;
        while j < k
            invariant
                j <= k,
                k < 12,
                p as nat == two_to(j as nat),
                p <= 2048,
            decreases k - j,
        {
            proof {
                lemma_two_to_mono((j + 1) as nat, 11);
                lemma_two_to_12();
            }
            p = p * 2;
            j = j + 1;
        }
        assert(m < 0x20_0000_0000_0000);
        assert(m * p < 0x20_0000_0000_0000 * 2048) by (nonlinear_arith)
            requires m < 0x20_0000_0000_0000, p <= 2048;
        (m * p, false)
    } else {
        let k = 1075 - e1;
        if k >= 64 {
            proof {
                lemma_two_to_mono(64, k as nat);
                lemma_two_to_64();
                assert(m < 0x20_0000_0000_0000);
                assert(m as nat / two_to(k as nat) == 0) by (nonlinear_arith)
                    requires m < 0x20_0000_0000_0000, two_to(k as nat) >= 0x1_0000_0000_0000_0000;
                assert(m as nat % two_to(k as nat) == m) by (nonlinear_arith)
                    requires m < 0x20_0000_0000_0000, two_to(k as nat) >= 0x1_0000_0000_0000_0000;
            }
            return (0, m != 0);
        }
        let mut p: u128 = 1;
        let mut j: u64 = 0;
        while j < k
            invariant
                j <= k,
                k < 64,
                p as nat == two_to(j as nat),
                p <= 0x8000_0000_0000_0000,
            decreases k - j,
        {
            proof {
                lemma_two_to_mono((j + 1) as nat, 63);
                lemma_two_to_64();
            }
            p = p * 2;
            j = j + 1;
        }
        proof {
            lemma_two_to_pos(k as nat);
            assert(m < 0x20_0000_0000_0000);
            assert(m / p <= m) by (nonlinear_arith)
                requires p >= 1;
        }
        (m / p, m % p != 0)
    }
}

} // verus!
