//! Character-level encodings used by the renderers: decimal and hexadecimal
//! digits, base64, JSON string escaping, UTF-8 and UTF-16.
use vstd::prelude::*;
use vstd::utf8::{encode_scalar, encode_utf8};

verus! {

/// The decimal digit for `d`, `0 <= d < 10`.
pub open spec fn digit_char(d: int) -> char {
    (48 + d) as char
}

/// The decimal digits of `n`, most significant first, without leading zeros.
pub open spec fn nat_digits(n: nat) -> Seq<char>
    decreases n,
{
    if n < 10 {
        seq![digit_char(n as int)]
    } else {
        nat_digits(n / 10).push(digit_char((n % 10) as int))
    }
}

/// The decimal text of an integer: a minus sign for negative values, then its digits.
pub open spec fn int_text(i: int) -> Seq<char> {
    if i < 0 {
        seq!['-'] + nat_digits((-i) as nat)
    } else {
        nat_digits(i as nat)
    }
}

fn digit_of(d: u64) -> (c: char)
    requires
        d < 10,
    ensures
        c == digit_char(d as int),
{
    let b: u8 = (48 + d) as u8;
    b as char
}

/// Appends the decimal digits of `n`.
pub fn push_nat_digits(out: &mut Vec<char>, n: u64)
    ensures
        final(out)@ == old(out)@ + nat_digits(n as nat),
    decreases n,
{
    if n < 10 {
        out.push(digit_of(n));
        assert(nat_digits(n as nat) == seq![digit_char(n as int)]);
    } else {
        push_nat_digits(out, n / 10);
        out.push(digit_of(n % 10));
        assert(nat_digits(n as nat) == nat_digits((n / 10) as nat).push(digit_char((n % 10) as int)));
    }
}

/// Appends the decimal text of `i`.
pub fn push_int_text(out: &mut Vec<char>, i: i64)
    ensures
        final(out)@ == old(out)@ + int_text(i as int),
{
    if i < 0 {
        out.push('-');
        let mag: u64 = ((-(i + 1)) as u64) + 1;
        push_nat_digits(out, mag);
        assert(old(out)@.push('-') + nat_digits(mag as nat) == old(out)@ + (seq!['-'] + nat_digits(mag as nat)));
    } else {
        push_nat_digits(out, i as u64);
    }
}

/// Appends every character of `s`.
pub fn push_str(out: &mut Vec<char>, s: &str)
    ensures
        final(out)@ == old(out)@ + s@,
{
    let n = s.unicode_len();
    let mut i: usize = 0;
    while i < n
        invariant
            n == s@.len(),
            i <= n,
            out@ == old(out)@ + s@.subrange(0, i as int),
        decreases n - i,
    {
        out.push(s.get_char(i));
        assert(s@.subrange(0, i + 1) == s@.subrange(0, i as int).push(s@[i as int]));
        i = i + 1;
    }
    assert(s@.subrange(0, n as int) == s@);
}

/// The characters of `s`, in order.
pub fn chars_of(s: &str) -> (r: Vec<char>)
    ensures
        r@ == s@,
{
    let mut r: Vec<char> = Vec::new();
    push_str(&mut r, s);
    r
}

/// The lower-case hexadecimal digit for `d`, `0 <= d < 16`.
pub open spec fn hex_digit(d: int) -> char {
    if d < 10 {
        (48 + d) as char
    } else {
        (87 + d) as char
    }
}

/// Two lower-case hexadecimal digits for each byte.
pub open spec fn hex_text(b: Seq<u8>) -> Seq<char>
    decreases b.len(),
{
    if b.len() == 0 {
        seq![]
    } else {
        hex_text(b.drop_last()) + seq![
            hex_digit(b.last() as int / 16),
            hex_digit(b.last() as int % 16),
        ]
    }
}

fn hex_digit_of(d: u8) -> (c: char)
    requires
        d < 16,
    ensures
        c == hex_digit(d as int),
{
    if d < 10 {
        (48 + d) as char
    } else {
        (87 + d) as char
    }
}

/// Appends the hexadecimal text of `b`.
pub fn push_hex(out: &mut Vec<char>, b: &[u8])
    ensures
        final(out)@ == old(out)@ + hex_text(b@),
{
    let mut i: usize = 0;
    while i < b.len()
        invariant
            i <= b@.len(),
            out@ == old(out)@ + hex_text(b@.subrange(0, i as int)),
        decreases b@.len() - i,
    {
        let x = b[i];
        out.push(hex_digit_of(x / 16));
        out.push(hex_digit_of(x % 16));
        assert(b@.subrange(0, i + 1).drop_last() == b@.subrange(0, i as int));
        i = i + 1;
    }
    assert(b@.subrange(0, b@.len() as int) == b@);
}

/// The base64 alphabet of RFC 4648.
pub open spec fn b64_alphabet() -> Seq<char> {
    "ABCDEFGHIJKLMNOPQRSTUVWXYZabcdefghijklmnopqrstuvwxyz0123456789+/"@
}

/// The base64 character for a six-bit value.
pub open spec fn b64_char(x: int) -> char {
    b64_alphabet()[x]
}

/// Standard base64 with `=` padding: each group of three bytes gives four
/// characters, a final group of one or two bytes is padded to four.
pub open spec fn base64_text(b: Seq<u8>) -> Seq<char>
    decreases b.len(),
{
    let x = if b.len() > 0 { b[0] as int } else { 0 };
    let y = if b.len() > 1 { b[1] as int } else { 0 };
    let z = if b.len() > 2 { b[2] as int } else { 0 };
    if b.len() == 0 {
        seq![]
    } else if b.len() == 1 {
        seq![b64_char(x / 4), b64_char((x % 4) * 16), '=', '=']
    } else if b.len() == 2 {
        seq![b64_char(x / 4), b64_char((x % 4) * 16 + y / 16), b64_char((y % 16) * 4), '=']
    } else {
        seq![
            b64_char(x / 4),
            b64_char((x % 4) * 16 + y / 16),
            b64_char((y % 16) * 4 + z / 64),
            b64_char(z % 64),
        ] + base64_text(b.subrange(3, b.len() as int))
    }
}

fn b64_char_of(x: u8) -> (c: char)
    requires
        x < 64,
    ensures
        c == b64_char(x as int),
{
    let table = "ABCDEFGHIJKLMNOPQRSTUVWXYZabcdefghijklmnopqrstuvwxyz0123456789+/";
    proof {
        reveal_strlit("ABCDEFGHIJKLMNOPQRSTUVWXYZabcdefghijklmnopqrstuvwxyz0123456789+/");
    }
    table.get_char(x as usize)
}

/// Appends the base64 text of `b`.
pub fn push_base64(out: &mut Vec<char>, b: &[u8])
    ensures
        final(out)@ == old(out)@ + base64_text(b@),
{
    let n = b.len();
    let mut i: usize = 0;
    assert(b@.subrange(0, n as int) == b@);
    while i < n && n - i >= 3
        invariant
            n == b@.len(),
            i <= n,
            old(out)@ + base64_text(b@) == out@ + base64_text(b@.subrange(i as int, n as int)),
        decreases n - i,
    {
        let rest = Ghost(b@.subrange(i as int, n as int));
        assert(rest@.subrange(3, rest@.len() as int) == b@.subrange(i + 3, n as int));
        let (x, y, z) = (b[i], b[i + 1], b[i + 2]);
        out.push(b64_char_of(x / 4));
        out.push(b64_char_of((x % 4) * 16 + y / 16));
        out.push(b64_char_of((y % 16) * 4 + z / 64));
        out.push(b64_char_of(z % 64));
        i = i + 3;
    }
    let rest = Ghost(b@.subrange(i as int, n as int));
    if n - i == 1 {
        let x = b[i];
        out.push(b64_char_of(x / 4));
        out.push(b64_char_of((x % 4) * 16));
        out.push('=');
        out.push('=');
    } else if n - i == 2 {
        let (x, y) = (b[i], b[i + 1]);
        out.push(b64_char_of(x / 4));
        out.push(b64_char_of((x % 4) * 16 + y / 16));
        out.push(b64_char_of((y % 16) * 4));
        out.push('=');
    }
    assert(base64_text(rest@).len() >= 0);
}

/// The JSON escape of one character, as serde_json writes it: quote,
/// backslash and control characters are escaped, all others stand as they are.
pub open spec fn json_escape_char(c: char) -> Seq<char> {
    if c == '"' {
        seq!['\\', '"']
    } else if c == '\\' {
        seq!['\\', '\\']
    } else if c == '\n' {
        seq!['\\', 'n']
    } else if c == '\r' {
        seq!['\\', 'r']
    } else if c == '\t' {
        seq!['\\', 't']
    } else if (c as u32) == 8 {
        seq!['\\', 'b']
    } else if (c as u32) == 12 {
        seq!['\\', 'f']
    } else if (c as u32) < 32 {
        seq!['\\', 'u', '0', '0', hex_digit((c as u32) as int / 16), hex_digit((c as u32) as int % 16)]
    } else {
        seq![c]
    }
}

/// The escaped body of a JSON string.
pub open spec fn json_escape(s: Seq<char>) -> Seq<char>
    decreases s.len(),
{
    if s.len() == 0 {
        seq![]
    } else {
        json_escape(s.drop_last()) + json_escape_char(s.last())
    }
}

/// A JSON string literal holding `s`.
pub open spec fn json_string(s: Seq<char>) -> Seq<char> {
    seq!['"'] + json_escape(s) + seq!['"']
}

fn push_escaped_char(out: &mut Vec<char>, c: char)
    ensures
        final(out)@ == old(out)@ + json_escape_char(c),
{
    let u = c as u32;
    if c == '"' {
        out.push('\\');
        out.push('"');
    } else if c == '\\' {
        out.push('\\');
        out.push('\\');
    } else if c == '\n' {
        out.push('\\');
        out.push('n');
    } else if c == '\r' {
        out.push('\\');
        out.push('r');
    } else if c == '\t' {
        out.push('\\');
        out.push('t');
    } else if u == 8 {
        out.push('\\');
        out.push('b');
    } else if u == 12 {
        out.push('\\');
        out.push('f');
    } else if u < 32 {
        out.push('\\');
        out.push('u');
        out.push('0');
        out.push('0');
        out.push(hex_digit_of((u / 16) as u8));
        out.push(hex_digit_of((u % 16) as u8));
    } else {
        out.push(c);
    }
}

/// Appends the JSON string literal holding the characters of `t`.
pub fn push_json_chars(out: &mut Vec<char>, t: &Vec<char>)
    ensures
        final(out)@ == old(out)@ + json_string(t@),
{
    out.push('"');
    let mut i: usize = 0;
    while i < t.len()
        invariant
            i <= t@.len(),
            out@ == old(out)@ + seq!['"'] + json_escape(t@.subrange(0, i as int)),
        decreases t@.len() - i,
    {
        push_escaped_char(out, t[i]);
        assert(t@.subrange(0, i + 1).drop_last() == t@.subrange(0, i as int));
        i = i + 1;
    }
    out.push('"');
    assert(t@.subrange(0, t@.len() as int) == t@);
}

/// Appends the JSON string literal holding `s`.
pub fn push_json_string(out: &mut Vec<char>, s: &str)
    ensures
        final(out)@ == old(out)@ + json_string(s@),
{
    let t = chars_of(s);
    push_json_chars(out, &t);
}

proof fn lemma_encode_utf8_push(s: Seq<char>, c: char)
    ensures
        encode_utf8(s.push(c)) == encode_utf8(s) + encode_scalar(c as u32),
    decreases s.len(),
{
    if s.len() == 0 {
        assert(s.push(c).drop_first() == Seq::<char>::empty());
        assert(encode_utf8(Seq::<char>::empty()) == Seq::<u8>::empty());
        assert(encode_utf8(s.push(c)) == encode_scalar(c as u32) + Seq::<u8>::empty());
    } else {
        assert(s.push(c).drop_first() == s.drop_first().push(c));
        lemma_encode_utf8_push(s.drop_first(), c);
        assert(encode_utf8(s.push(c)) == encode_scalar(s[0] as u32) + encode_utf8(s.drop_first().push(c)));
    }
}

/// The UTF-8 bytes of a character sequence.
pub fn utf8_bytes(chars: &Vec<char>) -> (r: Vec<u8>)
    ensures
        r@ == encode_utf8(chars@),
{
    broadcast use vstd::utf8::char_is_scalar;
    let mut r: Vec<u8> = Vec::new();
    let mut i: usize = 0;
    while i < chars.len()
        invariant
            i <= chars@.len(),
            r@ == encode_utf8(chars@.subrange(0, i as int)),
        decreases chars@.len() - i,
    {
        let c = chars[i];
        let v = c as u32;
        let ghost before = r@;
        proof {
            vstd::utf8::char_is_scalar(c);
        }
        if v <= 0x7F {
            r.push((v & 0x7F) as u8);
            assert(r@ == before + encode_scalar(v));
        } else if v <= 0x7FF {
            r.push(0xC0 | ((v >> 6) & 0x1F) as u8);
            r.push(0x80 | (v & 0x3F) as u8);
            assert(r@ == before + encode_scalar(v));
        } else if v <= 0xFFFF {
            r.push(0xE0 | ((v >> 12) & 0x0F) as u8);
            r.push(0x80 | ((v >> 6) & 0x3F) as u8);
            r.push(0x80 | (v & 0x3F) as u8);
            assert(r@ == before + encode_scalar(v));
        } else {
            r.push(0xF0 | ((v >> 18) & 0x7) as u8);
            r.push(0x80 | ((v >> 12) & 0x3F) as u8);
            r.push(0x80 | ((v >> 6) & 0x3F) as u8);
            r.push(0x80 | (v & 0x3F) as u8);
            assert(r@ == before + encode_scalar(v));
        }
        proof {
            lemma_encode_utf8_push(chars@.subrange(0, i as int), c);
            assert(chars@.subrange(0, i + 1) == chars@.subrange(0, i as int).push(c));
        }
        i = i + 1;
    }
    assert(chars@.subrange(0, chars@.len() as int) == chars@);
    r
}

/// The UTF-16 code units of one character: one unit in the basic plane,
/// a surrogate pair above it.
pub open spec fn utf16_char(c: char) -> Seq<u16> {
    let v = (c as u32) as int;
    if v < 0x10000 {
        seq![v as u16]
    } else {
        seq![(0xD800 + (v - 0x10000) / 0x400) as u16, (0xDC00 + (v - 0x10000) % 0x400) as u16]
    }
}

/// The UTF-16 code units of a character sequence.
pub open spec fn utf16_text(s: Seq<char>) -> Seq<u16>
    decreases s.len(),
{
    if s.len() == 0 {
        seq![]
    } else {
        utf16_text(s.drop_last()) + utf16_char(s.last())
    }
}

/// The UTF-16 code units of a character sequence.
pub fn utf16_units(chars: &Vec<char>) -> (r: Vec<u16>)
    ensures
        r@ == utf16_text(chars@),
{
    broadcast use vstd::utf8::char_is_scalar;
    let mut r: Vec<u16> = Vec::new();
    let mut i: usize = 0;
    while i < chars.len()
        invariant
            i <= chars@.len(),
            r@ == utf16_text(chars@.subrange(0, i as int)),
        decreases chars@.len() - i,
    {
        let c = chars[i];
        let v = c as u32;
        if v < 0x10000 {
            r.push(v as u16);
        } else {
            let w = v - 0x10000;
            r.push((0xD800 + w / 0x400) as u16);
            r.push((0xDC00 + w % 0x400) as u16);
        }
        assert(chars@.subrange(0, i + 1).drop_last() == chars@.subrange(0, i as int));
        i = i + 1;
    }
    assert(chars@.subrange(0, chars@.len() as int) == chars@);
    r
}

} // verus!
