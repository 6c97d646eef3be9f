//! Byte layouts of fixed-size target values and the display text of dates.
use vstd::prelude::*;
use crate::text::{nat_digits, push_nat_digits, push_str};

verus! {

/// `256` raised to `k`.
pub open spec fn pow256(k: nat) -> nat
    decreases k,
{
    if k == 0 {
        1
    } else {
        256 * pow256((k - 1) as nat)
    }
}

/// The `w` low-order bytes of `n`, least significant first.
pub open spec fn le_bytes(n: nat, w: nat) -> Seq<u8>
    decreases w,
{
    if w == 0 {
        seq![]
    } else {
        le_bytes(n, (w - 1) as nat).push(((n / pow256((w - 1) as nat)) % 256) as u8)
    }
}

/// The two's complement encoding of `n` in `w` bytes, least significant first.
pub open spec fn int_bytes(n: int, w: nat) -> Seq<u8> {
    if n < 0 {
        le_bytes((n + pow256(w)) as nat, w)
    } else {
        le_bytes(n as nat, w)
    }
}

proof fn lemma_pow256_pos(k: nat)
    ensures
        pow256(k) >= 1,
    decreases k,
{
    if k > 0 {
        lemma_pow256_pos((k - 1) as nat);
    }
}

pub proof fn lemma_pow256_values()
    ensures
        pow256(2) == 0x1_0000,
        pow256(4) == 0x1_0000_0000,
        pow256(8) == 0x1_0000_0000_0000_0000,
{
    reveal_with_fuel(pow256, 9);
}

proof fn lemma_pow256_mono(a: nat, b: nat)
    requires
        a <= b,
    ensures
        pow256(a) <= pow256(b),
    decreases b,
{
    if a < b {
        lemma_pow256_mono(a, (b - 1) as nat);
        lemma_pow256_pos((b - 1) as nat);
    }
}

/// Appends the `w`-byte two's complement encoding of `n`.
pub fn push_int_le(out: &mut Vec<u8>, n: i128, w: usize)
    requires
        w == 1 || w == 2 || w == 4 || w == 8,
        -(pow256(w as nat) as int) <= n < pow256(w as nat),
    ensures
        final(out)@ == old(out)@ + int_bytes(n as int, w as nat),
{
    proof {
        lemma_pow256_values();
        lemma_pow256_mono(w as nat, 8);
        reveal_with_fuel(pow256, 2);
    }
    let mut full: u128 = 1;
    let mut k: usize = 0;
    while k < w
        invariant
            k <= w <= 8,
            full as nat == pow256(k as nat),
            pow256(w as nat) <= 0x1_0000_0000_0000_0000,
        decreases w - k,
    {
        proof {
            lemma_pow256_mono((k + 1) as nat, w as nat);
        }
        full = full * 256;
        k = k + 1;
    }
    let x: u128 = if n < 0 { (n + full as i128) as u128 } else { n as u128 };
    let ghost xn: nat = if n < 0 { (n + pow256(w as nat)) as nat } else { n as nat };
    assert(x as nat == xn);
    let mut p: u128 = 1;
    let mut j: usize = 0;
    while j < w
        invariant
            j <= w <= 8,
            p as nat == pow256(j as nat),
            pow256(w as nat) <= 0x1_0000_0000_0000_0000,
            x as nat == xn,
            out@ == old(out)@ + le_bytes(xn, j as nat),
        decreases w - j,
    {
        proof {
            lemma_pow256_pos(j as nat);
            lemma_pow256_mono((j + 1) as nat, w as nat);
        }
        out.push(((x / p) % 256) as u8);
        p = p * 256;
        j = j + 1;
    }
}

/// `n` in decimal, with zeros in front up to `w` characters.
pub open spec fn padded(n: nat, w: nat) -> Seq<char> {
    let d = nat_digits(n);
    if d.len() < w {
        Seq::new((w - d.len()) as nat, |_i: int| '0') + d
    } else {
        d
    }
}

/// Appends `n` in decimal, with zeros in front up to `w` characters.
pub fn push_padded(out: &mut Vec<char>, n: u64, w: usize)
    ensures
        final(out)@ == old(out)@ + padded(n as nat, w as nat),
{
    let mut d: Vec<char> = Vec::new();
    push_nat_digits(&mut d, n);
    assert(d@ == nat_digits(n as nat));
    let ghost start = out@;
    let mut k: usize = d.len();
    while k < w
        invariant
            d.len() <= k,
            k <= w || k == d.len(),
            out@ == start + Seq::new((k - d@.len()) as nat, |_i: int| '0'),
        decreases w - k,
    {
        out.push('0');
        assert(out@ =~= start + Seq::new((k + 1 - d@.len()) as nat, |_i: int| '0'));
        k = k + 1;
    }
    let mut i: usize = 0;
    let ghost zeros = out@;
    while i < d.len()
        invariant
            i <= d@.len(),
            out@ == zeros + d@.subrange(0, i as int),
        decreases d@.len() - i,
    {
        out.push(d[i]);
        assert(d@.subrange(0, i + 1) == d@.subrange(0, i as int).push(d@[i as int]));
        i = i + 1;
    }
    assert(d@.subrange(0, d@.len() as int) == d@);
    proof {
        if d@.len() >= w {
            assert(zeros == start);
        }
    }
    assert(out@ =~= start + padded(n as nat, w as nat));
}

/// The year of an ISO-8601 date: four digits within 0..=9999, a sign and at
/// least four digits outside.
pub open spec fn year_text(y: int) -> Seq<char> {
    if 0 <= y && y <= 9999 {
        padded(y as nat, 4)
    } else if y < 0 {
        "-"@ + padded((-y) as nat, 4)
    } else {
        "+"@ + nat_digits(y as nat)
    }
}

/// The date part `YYYY-MM-DD` of an ISO-8601 text.
pub open spec fn iso_date_text(date: (i32, u32, u32)) -> Seq<char> {
    year_text(date.0 as int) + "-"@ + padded(date.1 as nat, 2) + "-"@ + padded(date.2 as nat, 2)
}

/// The time part `HH:MM:SS.mmm` of an ISO-8601 text.
pub open spec fn iso_time_text(time: (int, int, int, int)) -> Seq<char> {
    padded(time.0 as nat, 2) + ":"@ + padded(time.1 as nat, 2) + ":"@ + padded(time.2 as nat, 2)
        + "."@ + padded(time.3 as nat, 3)
}

/// The ISO-8601 text `YYYY-MM-DDTHH:MM:SS.mmmZ` of a UTC instant given by its fields.
pub open spec fn iso_text(date: (i32, u32, u32), time: (int, int, int, int)) -> Seq<char> {
    iso_date_text(date) + "T"@ + iso_time_text(time) + "Z"@
}

fn push_iso_date(out: &mut Vec<char>, date: (i32, u32, u32))
    ensures
        final(out)@ == old(out)@ + iso_date_text(date),
{
    let ghost start = out@;
    let y = date.0;
    if 0 <= y && y <= 9999 {
        push_padded(out, y as u64, 4);
    } else if y < 0 {
        push_str(out, "-");
        let m: u64 = ((-(y as i64)) as u64);
        push_padded(out, m, 4);
    } else {
        push_str(out, "+");
        push_nat_digits(out, y as u64);
    }
    assert(out@ =~= start + year_text(date.0 as int));
    let ghost mid = out@;
    push_str(out, "-");
    push_padded(out, date.1 as u64, 2);
    push_str(out, "-");
    push_padded(out, date.2 as u64, 2);
    assert(out@ =~= mid + ("-"@ + padded(date.1 as nat, 2) + "-"@ + padded(date.2 as nat, 2)));
    assert(out@ =~= start + iso_date_text(date));
}

fn push_iso_time(out: &mut Vec<char>, time: (u32, u32, u32, u32))
    ensures
        final(out)@ == old(out)@ + iso_time_text((time.0 as int, time.1 as int, time.2 as int, time.3 as int)),
{
    let ghost start = out@;
    push_padded(out, time.0 as u64, 2);
    push_str(out, ":");
    push_padded(out, time.1 as u64, 2);
    push_str(out, ":");
    let ghost mid = out@;
    push_padded(out, time.2 as u64, 2);
    push_str(out, ".");
    push_padded(out, time.3 as u64, 3);
    assert(out@ =~= mid + (padded(time.2 as nat, 2) + "."@ + padded(time.3 as nat, 3)));
    assert(out@ =~= start + iso_time_text((time.0 as int, time.1 as int, time.2 as int, time.3 as int)));
}

/// Appends the ISO-8601 text of a UTC instant given by its fields.
pub fn push_iso_text(out: &mut Vec<char>, date: (i32, u32, u32), time: (u32, u32, u32, u32))
    ensures
        final(out)@ == old(out)@ + iso_text(date, (time.0 as int, time.1 as int, time.2 as int, time.3 as int)),
{
    let ghost start = out@;
    push_iso_date(out, date);
    push_str(out, "T");
    push_iso_time(out, time);
    push_str(out, "Z");
    assert(out@ =~= start + iso_text(date, (time.0 as int, time.1 as int, time.2 as int, time.3 as int)));
}

} // verus!
