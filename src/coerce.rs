//! The coercion engine: a document value converted to the representation
//! that a target C type asks for, or the reason it cannot be.
use vstd::prelude::*;
use crate::calendar::{time_of_day, time_of_day_at, utc_date, utc_date_of};
use crate::extjson::{decimal128_chars, decimal128_text, extjson, extjson_text};
use crate::layout::{int_bytes, iso_text, le_bytes, push_int_le, push_iso_text};
use crate::numeric::{
    check_float_text, f64_negative, f64_non_finite, f64_is_zero, f64_trunc_magnitude, f64_truncate,
    is_float_text, parse_int, read_int,
};
use crate::text::{chars_of, int_text, push_int_text, push_str, utf8_bytes};
use crate::value::{str_eq, DocumentValue, TypeName, UUID_SUBTYPE};
use vstd::utf8::encode_utf8;

verus! {

/// The C representation that a caller asks a value to be converted to.
#[derive(Clone, Copy, Debug, PartialEq, Eq, Structural)]
pub enum TargetKind {
    /// Text, as UTF-8 bytes.
    Char,
    /// Text, as UTF-16 code units.
    WChar,
    /// Raw bytes.
    Binary,
    /// A boolean, one byte.
    Bit,
    /// A signed 64-bit integer.
    SBigInt,
    /// An unsigned 64-bit integer.
    UBigInt,
    /// A signed 32-bit integer.
    SLong,
    /// An unsigned 32-bit integer.
    ULong,
    /// A 64-bit float.
    Double,
    /// A 32-bit float.
    Float,
    /// A timestamp structure: year, month, day, hour, minute, second, fraction.
    Timestamp,
    /// A date structure: year, month, day.
    Date,
    /// A time structure: hour, minute, second.
    Time,
    /// A GUID, the 16 bytes of a UUID.
    Guid,
}

/// The exact value that a float target receives; turning it into IEEE-754
/// bytes of the target's width is the float encoder's work.
#[derive(Debug)]
pub enum FloatSource {
    /// The value of the binary64 encoding `bits`.
    Bits(u64),
    /// An integer value.
    Integer(i64),
    /// The value written by decimal float text.
    Text(Vec<char>),
}

/// The mathematical content of a `FloatSource`.
pub enum FloatModel {
    Bits(u64),
    Integer(int),
    Text(Seq<char>),
}

impl View for FloatSource {
    type V = FloatModel;

    open spec fn view(&self) -> FloatModel {
        match self {
            FloatSource::Bits(b) => FloatModel::Bits(*b),
            FloatSource::Integer(i) => FloatModel::Integer(*i as int),
            FloatSource::Text(t) => FloatModel::Text(t@),
        }
    }
}

/// A value converted for a target.
#[derive(Debug)]
pub enum Coerced {
    /// The value is missing: the caller receives the null indicator.
    Null,
    /// Text, handed out in pieces.
    Text(Vec<char>),
    /// Bytes, handed out in pieces.
    Bytes(Vec<u8>),
    /// The encoding of a fixed-size value, handed out whole.
    Fixed(Vec<u8>),
    /// A value for a float target, handed out whole once encoded.
    Float(FloatSource),
}

/// The mathematical content of a `Coerced`.
pub enum CoercedModel {
    Null,
    Text(Seq<char>),
    Bytes(Seq<u8>),
    Fixed(Seq<u8>),
    Float(FloatModel),
}

impl View for Coerced {
    type V = CoercedModel;

    open spec fn view(&self) -> CoercedModel {
        match self {
            Coerced::Null => CoercedModel::Null,
            Coerced::Text(t) => CoercedModel::Text(t@),
            Coerced::Bytes(b) => CoercedModel::Bytes(b@),
            Coerced::Fixed(b) => CoercedModel::Fixed(b@),
            Coerced::Float(f) => CoercedModel::Float(f@),
        }
    }
}

/// What a successful conversion dropped; the caller is told, not stopped.
#[derive(Clone, Copy, Debug, PartialEq, Eq, Structural)]
pub enum Loss {
    /// A float's nonzero fraction was truncated.
    FractionalPart,
    /// A timestamp's time of day was dropped for a date.
    TimeOfDay,
    /// A timestamp's fraction of a second was dropped for a time.
    SubSecond,
    /// Decimal128 values are not converted to numbers: zero stands in.
    Decimal128Unconverted,
}

/// Why a value cannot be converted for a target.
#[derive(Debug)]
pub enum ConversionError {
    /// No conversion exists from this kind of value to this target.
    UnsupportedConversion { from: TypeName, to: TargetKind },
    /// The value, shown as text, lies outside the target's range.
    IntegralOverflow { value: Vec<char> },
    /// The string does not write a number of the kind the target needs.
    InvalidNumericString { value: Vec<char> },
    /// The instant, in milliseconds, has no calendar date.
    InvalidDateTimeFormat { value: Vec<char> },
}

/// The mathematical content of a `ConversionError`.
pub enum ErrorModel {
    UnsupportedConversion(TypeName, TargetKind),
    IntegralOverflow(Seq<char>),
    InvalidNumericString(Seq<char>),
    InvalidDateTimeFormat(Seq<char>),
}

impl View for ConversionError {
    type V = ErrorModel;

    open spec fn view(&self) -> ErrorModel {
        match self {
            ConversionError::UnsupportedConversion { from, to } => ErrorModel::UnsupportedConversion(
                *from,
                *to,
            ),
            ConversionError::IntegralOverflow { value } => ErrorModel::IntegralOverflow(value@),
            ConversionError::InvalidNumericString { value } => ErrorModel::InvalidNumericString(
                value@,
            ),
            ConversionError::InvalidDateTimeFormat { value } => ErrorModel::InvalidDateTimeFormat(
                value@,
            ),
        }
    }
}

/// The result of a conversion: the converted value and what it lost, or the error.
pub type Conversion = Result<(Coerced, Option<Loss>), ConversionError>;

/// The mathematical content of a conversion result.
pub type ConversionModel = Result<(CoercedModel, Option<Loss>), ErrorModel>;

/// The mathematical content of a conversion result.
pub open spec fn conversion_view(r: Conversion) -> ConversionModel {
    match r {
        Ok((c, l)) => Ok((c@, l)),
        Err(e) => Err(e@),
    }
}

/// The least and the greatest value of an integer target.
pub open spec fn int_range(t: TargetKind) -> (int, int) {
    match t {
        TargetKind::SBigInt => (-0x8000_0000_0000_0000, 0x7FFF_FFFF_FFFF_FFFF),
        TargetKind::UBigInt => (0, 0xFFFF_FFFF_FFFF_FFFF),
        TargetKind::SLong => (-0x8000_0000, 0x7FFF_FFFF),
        _ => (0, 0xFFFF_FFFF),
    }
}

/// The width in bytes of an integer target.
pub open spec fn int_width(t: TargetKind) -> nat {
    match t {
        TargetKind::SBigInt | TargetKind::UBigInt => 8,
        _ => 4,
    }
}

/// Whether `t` is one of the integer targets.
pub open spec fn is_int_target(t: TargetKind) -> bool {
    t is SBigInt || t is UBigInt || t is SLong || t is ULong
}

/// The integer a value stands for, before the target's range is checked,
/// with what was lost in reaching it.
pub open spec fn integral_source(v: DocumentValue, t: TargetKind) -> Result<(int, Option<Loss>), ErrorModel> {
    match v {
        DocumentValue::Boolean(b) => Ok((if b { 1int } else { 0int }, None)),
        DocumentValue::Int32(i) => Ok((i as int, None)),
        DocumentValue::Int64(i) => Ok((i as int, None)),
        DocumentValue::DateTime(ms) => Ok((ms as int, None)),
        DocumentValue::Decimal128(_) => Ok((0int, Some(Loss::Decimal128Unconverted))),
        DocumentValue::Double(d) => if f64_non_finite(d.bits) {
            Err(ErrorModel::IntegralOverflow(d.text@))
        } else {
            let (m, lossy) = f64_trunc_magnitude(d.bits);
            Ok((
                if f64_negative(d.bits) { -(m as int) } else { m as int },
                if lossy { Some(Loss::FractionalPart) } else { None },
            ))
        },
        DocumentValue::String(s) => match parse_int(s@) {
            Some(n) => Ok((n, None)),
            None => Err(ErrorModel::InvalidNumericString(s@)),
        },
        _ => Err(ErrorModel::UnsupportedConversion(v.kind(), t)),
    }
}

/// A value shown as text in an overflow error.
pub open spec fn overflow_text(v: DocumentValue) -> Seq<char> {
    match v {
        DocumentValue::Double(d) => d.text@,
        DocumentValue::String(s) => s@,
        DocumentValue::Int32(i) => int_text(i as int),
        DocumentValue::Int64(i) => int_text(i as int),
        DocumentValue::DateTime(ms) => int_text(ms as int),
        _ => seq![],
    }
}

/// Conversion to an integer target: the value's integer, if it lies in the
/// target's range, encoded little-endian in the target's width.
pub open spec fn integer_model(v: DocumentValue, t: TargetKind) -> ConversionModel {
    if v.is_null_like() {
        Ok((CoercedModel::Null, None))
    } else {
        match integral_source(v, t) {
            Err(e) => Err(e),
            Ok((n, loss)) => if int_range(t).0 <= n && n <= int_range(t).1 {
                Ok((CoercedModel::Fixed(int_bytes(n, int_width(t))), loss))
            } else {
                Err(ErrorModel::IntegralOverflow(overflow_text(v)))
            },
        }
    }
}

/// Conversion to a boolean: nonzero numbers and the strings `1` and `true`
/// are true; a float's dropped fraction is reported.
pub open spec fn bit_model(v: DocumentValue) -> ConversionModel {
    match v {
        DocumentValue::Null | DocumentValue::Undefined => Ok((CoercedModel::Null, None)),
        DocumentValue::Boolean(b) => Ok((CoercedModel::Fixed(seq![if b { 1u8 } else { 0u8 }]), None)),
        DocumentValue::Int32(i) => Ok((CoercedModel::Fixed(seq![if i != 0 { 1u8 } else { 0u8 }]), None)),
        DocumentValue::Int64(i) => Ok((CoercedModel::Fixed(seq![if i != 0 { 1u8 } else { 0u8 }]), None)),
        DocumentValue::Double(d) => Ok((
            CoercedModel::Fixed(seq![if f64_is_zero(d.bits) { 0u8 } else { 1u8 }]),
            if !f64_non_finite(d.bits) && f64_trunc_magnitude(d.bits).1 {
                Some(Loss::FractionalPart)
            } else {
                None
            },
        )),
        DocumentValue::String(s) => Ok((
            CoercedModel::Fixed(seq![if s@ == "1"@ || s@ == "true"@ { 1u8 } else { 0u8 }]),
            None,
        )),
        _ => Err(ErrorModel::UnsupportedConversion(v.kind(), TargetKind::Bit)),
    }
}

/// The binary64 encoding of one.
pub const F64_ONE_BITS: u64 = 0x3FF0_0000_0000_0000;

/// Conversion to a float target.
pub open spec fn float_model(v: DocumentValue, t: TargetKind) -> ConversionModel {
    match v {
        DocumentValue::Null | DocumentValue::Undefined => Ok((CoercedModel::Null, None)),
        DocumentValue::Boolean(b) => Ok((
            CoercedModel::Float(FloatModel::Bits(if b { F64_ONE_BITS } else { 0 })),
            None,
        )),
        DocumentValue::Int32(i) => Ok((CoercedModel::Float(FloatModel::Integer(i as int)), None)),
        DocumentValue::Int64(i) => Ok((CoercedModel::Float(FloatModel::Integer(i as int)), None)),
        DocumentValue::DateTime(ms) => Ok((CoercedModel::Float(FloatModel::Integer(ms as int)), None)),
        DocumentValue::Double(d) => Ok((CoercedModel::Float(FloatModel::Bits(d.bits)), None)),
        DocumentValue::Decimal128(_) => Ok((
            CoercedModel::Float(FloatModel::Bits(0)),
            Some(Loss::Decimal128Unconverted),
        )),
        DocumentValue::String(s) => if is_float_text(s@) {
            Ok((CoercedModel::Float(FloatModel::Text(s@)), None))
        } else {
            Err(ErrorModel::InvalidNumericString(s@))
        },
        _ => Err(ErrorModel::UnsupportedConversion(v.kind(), t)),
    }
}

/// Conversion of an instant, given with its calendar date, to a target that
/// reads its fields: the ISO-8601 text, the seven 32-bit fields of a binary
/// target, or the timestamp, date and time structures.
pub open spec fn instant_model(ms: i64, date: Option<(i32, u32, u32)>, t: TargetKind) -> ConversionModel {
    match date {
        None => Err(ErrorModel::InvalidDateTimeFormat(int_text(ms as int))),
        Some(d) => {
            let tod = time_of_day(ms as int);
            let nanos = tod.3 * 1_000_000;
            let year16 = -0x8000 <= d.0 && d.0 <= 0x7FFF;
            if t is Char || t is WChar {
                Ok((CoercedModel::Text(iso_text(d, tod)), None))
            } else if t is Binary {
                Ok((
                    CoercedModel::Bytes(int_bytes(d.0 as int, 4) + le_bytes(d.1 as nat, 4)
                        + le_bytes(d.2 as nat, 4) + le_bytes(tod.0 as nat, 4) + le_bytes(tod.1 as nat, 4)
                        + le_bytes(tod.2 as nat, 4) + le_bytes(nanos as nat, 4)),
                    None,
                ))
            } else if t is Time {
                Ok((
                    CoercedModel::Fixed(le_bytes(tod.0 as nat, 2) + le_bytes(tod.1 as nat, 2)
                        + le_bytes(tod.2 as nat, 2)),
                    if tod.3 != 0 { Some(Loss::SubSecond) } else { None },
                ))
            } else if !year16 {
                Err(ErrorModel::IntegralOverflow(int_text(d.0 as int)))
            } else if t is Date {
                Ok((
                    CoercedModel::Fixed(int_bytes(d.0 as int, 2) + le_bytes(d.1 as nat, 2) + le_bytes(
                        d.2 as nat,
                        2,
                    )),
                    if tod.0 != 0 || tod.1 != 0 || tod.2 != 0 || tod.3 != 0 {
                        Some(Loss::TimeOfDay)
                    } else {
                        None
                    },
                ))
            } else {
                Ok((
                    CoercedModel::Fixed(int_bytes(d.0 as int, 2) + le_bytes(d.1 as nat, 2) + le_bytes(
                        d.2 as nat,
                        2,
                    ) + le_bytes(tod.0 as nat, 2) + le_bytes(tod.1 as nat, 2) + le_bytes(tod.2 as nat, 2)
                        + le_bytes(nanos as nat, 4)),
                    None,
                ))
            }
        },
    }
}

/// Whether `t` is one of the date and time structure targets.
pub open spec fn is_date_target(t: TargetKind) -> bool {
    t is Timestamp || t is Date || t is Time
}

/// Conversion to a date or time structure: only instants convert.
pub open spec fn date_model(v: DocumentValue, t: TargetKind) -> ConversionModel {
    match v {
        DocumentValue::Null | DocumentValue::Undefined => Ok((CoercedModel::Null, None)),
        DocumentValue::DateTime(ms) => instant_model(ms, utc_date_of(ms), t),
        _ => Err(ErrorModel::UnsupportedConversion(v.kind(), t)),
    }
}

/// The text form of a value: `NULL` for a missing value, natural text for
/// scalars, ISO-8601 for instants, canonical extended JSON for the rest.
pub open spec fn text_model(v: DocumentValue, t: TargetKind) -> ConversionModel {
    match v {
        DocumentValue::Null | DocumentValue::Undefined => Ok((CoercedModel::Text("NULL"@), None)),
        DocumentValue::Boolean(b) => Ok((CoercedModel::Text(if b { "true"@ } else { "false"@ }), None)),
        DocumentValue::Int32(i) => Ok((CoercedModel::Text(int_text(i as int)), None)),
        DocumentValue::Int64(i) => Ok((CoercedModel::Text(int_text(i as int)), None)),
        DocumentValue::Double(d) => Ok((CoercedModel::Text(d.text@), None)),
        DocumentValue::String(s) => Ok((CoercedModel::Text(s@), None)),
        DocumentValue::Decimal128(b) => Ok((CoercedModel::Text(decimal128_text(b@)), None)),
        DocumentValue::DateTime(ms) => instant_model(ms, utc_date_of(ms), t),
        _ => Ok((CoercedModel::Text(extjson(v)), None)),
    }
}

/// Conversion to raw bytes: the value's own bytes for binary, decimal128 and
/// strings (UTF-8), little-endian encodings for numbers, the seven 32-bit
/// fields for instants.
pub open spec fn binary_model(v: DocumentValue) -> ConversionModel {
    match v {
        DocumentValue::Null | DocumentValue::Undefined => Ok((CoercedModel::Null, None)),
        DocumentValue::Boolean(b) => Ok((CoercedModel::Bytes(seq![if b { 1u8 } else { 0u8 }]), None)),
        DocumentValue::Int32(i) => Ok((CoercedModel::Bytes(int_bytes(i as int, 4)), None)),
        DocumentValue::Int64(i) => Ok((CoercedModel::Bytes(int_bytes(i as int, 8)), None)),
        DocumentValue::Double(d) => Ok((CoercedModel::Bytes(le_bytes(d.bits as nat, 8)), None)),
        DocumentValue::String(s) => Ok((CoercedModel::Bytes(encode_utf8(s@)), None)),
        DocumentValue::Decimal128(b) => Ok((CoercedModel::Bytes(b@), None)),
        DocumentValue::Binary(bin) => Ok((CoercedModel::Bytes(bin.bytes@), None)),
        DocumentValue::DateTime(ms) => instant_model(ms, utc_date_of(ms), TargetKind::Binary),
        _ => Err(ErrorModel::UnsupportedConversion(v.kind(), TargetKind::Binary)),
    }
}

/// Conversion to a GUID: only a binary value of the UUID subtype converts.
pub open spec fn guid_model(v: DocumentValue) -> ConversionModel {
    match v {
        DocumentValue::Null | DocumentValue::Undefined => Ok((CoercedModel::Null, None)),
        DocumentValue::Binary(bin) => if bin.subtype == UUID_SUBTYPE {
            Ok((CoercedModel::Fixed(bin.bytes@), None))
        } else {
            Err(ErrorModel::UnsupportedConversion(TypeName::BinData, TargetKind::Guid))
        },
        _ => Err(ErrorModel::UnsupportedConversion(v.kind(), TargetKind::Guid)),
    }
}

/// The conversion of `v` for target `t`.
pub open spec fn coerce_model(v: DocumentValue, t: TargetKind) -> ConversionModel {
    match t {
        TargetKind::Char | TargetKind::WChar => text_model(v, t),
        TargetKind::Binary => binary_model(v),
        TargetKind::Bit => bit_model(v),
        TargetKind::SBigInt | TargetKind::UBigInt | TargetKind::SLong | TargetKind::ULong => integer_model(v, t),
        TargetKind::Double | TargetKind::Float => float_model(v, t),
        TargetKind::Timestamp | TargetKind::Date | TargetKind::Time => date_model(v, t),
        TargetKind::Guid => guid_model(v),
    }
}

fn is_non_finite(bits: u64) -> (r: bool)
    ensures
        r == f64_non_finite(bits),
{
    (bits / 0x10_0000_0000_0000) % 2048 == 2047
}

fn overflow_chars(v: &DocumentValue) -> (r: Vec<char>)
    ensures
        r@ == overflow_text(*v),
{
    let mut r: Vec<char> = Vec::new();
    match v {
        DocumentValue::Double(d) => push_str(&mut r, d.text.as_str()),
        DocumentValue::String(s) => push_str(&mut r, s.as_str()),
        DocumentValue::Int32(i) => push_int_text(&mut r, *i as i64),
        DocumentValue::Int64(i) => push_int_text(&mut r, *i),
        DocumentValue::DateTime(ms) => push_int_text(&mut r, *ms),
        _ => {},
    }
    assert(r@ =~= overflow_text(*v));
    r
}

fn int_limits(t: TargetKind) -> (r: (u128, u128, usize))
    requires
        is_int_target(t),
    ensures
        r.0 as int == -int_range(t).0,
        r.1 as int == int_range(t).1,
        r.2 as nat == int_width(t),
{
    match t {
        TargetKind::SBigInt => (0x8000_0000_0000_0000, 0x7FFF_FFFF_FFFF_FFFF, 8),
        TargetKind::UBigInt => (0, 0xFFFF_FFFF_FFFF_FFFF, 8),
        TargetKind::SLong => (0x8000_0000, 0x7FFF_FFFF, 4),
        _ => (0, 0xFFFF_FFFF, 4),
    }
}

/// Converts `v` for an integer target.
pub fn integer_to(v: &DocumentValue, t: TargetKind) -> (r: Conversion)
    requires
        is_int_target(t),
    ensures
        conversion_view(r) == integer_model(*v, t),
{
    let (neg, mag, loss): (bool, u128, Option<Loss>) = match v {
        DocumentValue::Null | DocumentValue::Undefined => {
            return Ok((Coerced::Null, None));
        },
        DocumentValue::Boolean(b) => (false, if *b { 1 } else { 0 }, None),
        DocumentValue::Int32(i) => {
            let x = *i as i128;
            (x < 0, if x < 0 { (-x) as u128 } else { x as u128 }, None)
        },
        DocumentValue::Int64(i) => {
            let x = *i as i128;
            (x < 0, if x < 0 { (-x) as u128 } else { x as u128 }, None)
        },
        DocumentValue::DateTime(ms) => {
            let x = *ms as i128;
            (x < 0, if x < 0 { (-x) as u128 } else { x as u128 }, None)
        },
        DocumentValue::Decimal128(_) => (false, 0, Some(Loss::Decimal128Unconverted)),
        DocumentValue::Double(d) => {
            if is_non_finite(d.bits) {
                return Err(ConversionError::IntegralOverflow { value: chars_of(d.text.as_str()) });
            }
            let (m, lossy) = f64_truncate(d.bits);
            (d.bits >= 0x8000_0000_0000_0000, m, if lossy { Some(Loss::FractionalPart) } else { None })
        },
        DocumentValue::String(s) => {
            let chars = chars_of(s.as_str());
            match read_int(&chars) {
                None => {
                    return Err(ConversionError::InvalidNumericString { value: chars });
                },
                Some((n, m)) => (n, m, None),
            }
        },
        _ => {
            return Err(ConversionError::UnsupportedConversion { from: v.kind_name(), to: t });
        },
    };
    let ghost n: int = match integral_source(*v, t) {
        Ok((n, _)) => n,
        Err(_) => 0,
    };
    assert(integral_source(*v, t) matches Ok((x, l)) && x == n && l == loss);
    assert(mag < 0x1_0000_0000_0000_0000 ==> n == (if neg { -(mag as int) } else { mag as int }));
    assert(mag >= 0x1_0000_0000_0000_0000 ==> n >= 0x1_0000_0000_0000_0000 || n <= -0x1_0000_0000_0000_0000);
    let (below, above, w) = int_limits(t);
    let fits = if neg { mag <= below } else { mag <= above };
    if !fits {
        return Err(ConversionError::IntegralOverflow { value: overflow_chars(v) });
    }
    let x: i128 = if neg { -(mag as i128) } else { mag as i128 };
    let mut out: Vec<u8> = Vec::new();
    proof {
        crate::layout::lemma_pow256_values();
    }
    push_int_le(&mut out, x, w);
    Ok((Coerced::Fixed(out), loss))
}

/// Converts `v` for a boolean target.
pub fn bit_to(v: &DocumentValue) -> (r: Conversion)
    ensures
        conversion_view(r) == bit_model(*v),
{
    let (b, loss): (bool, Option<Loss>) = match v {
        DocumentValue::Null | DocumentValue::Undefined => {
            return Ok((Coerced::Null, None));
        },
        DocumentValue::Boolean(b) => (*b, None),
        DocumentValue::Int32(i) => (*i != 0, None),
        DocumentValue::Int64(i) => (*i != 0, None),
        DocumentValue::Double(d) => {
            let nonzero = d.bits % 0x8000_0000_0000_0000 != 0;
            if is_non_finite(d.bits) {
                (nonzero, None)
            } else {
                let (_, lossy) = f64_truncate(d.bits);
                (nonzero, if lossy { Some(Loss::FractionalPart) } else { None })
            }
        },
        DocumentValue::String(s) => (str_eq(s.as_str(), "1") || str_eq(s.as_str(), "true"), None),
        _ => {
            return Err(ConversionError::UnsupportedConversion { from: v.kind_name(), to: TargetKind::Bit });
        },
    };
    let mut out: Vec<u8> = Vec::new();
    out.push(if b { 1u8 } else { 0u8 });
    assert(out@ == seq![if b { 1u8 } else { 0u8 }]);
    Ok((Coerced::Fixed(out), loss))
}

/// Converts `v` for a float target.
pub fn float_to(v: &DocumentValue, t: TargetKind) -> (r: Conversion)
    ensures
        conversion_view(r) == float_model(*v, t),
{
    match v {
        DocumentValue::Null | DocumentValue::Undefined => Ok((Coerced::Null, None)),
        DocumentValue::Boolean(b) => Ok((
            Coerced::Float(FloatSource::Bits(if *b { F64_ONE_BITS } else { 0 })),
            None,
        )),
        DocumentValue::Int32(i) => Ok((Coerced::Float(FloatSource::Integer(*i as i64)), None)),
        DocumentValue::Int64(i) => Ok((Coerced::Float(FloatSource::Integer(*i)), None)),
        DocumentValue::DateTime(ms) => Ok((Coerced::Float(FloatSource::Integer(*ms)), None)),
        DocumentValue::Double(d) => Ok((Coerced::Float(FloatSource::Bits(d.bits)), None)),
        DocumentValue::Decimal128(_) => Ok((
            Coerced::Float(FloatSource::Bits(0)),
            Some(Loss::Decimal128Unconverted),
        )),
        DocumentValue::String(s) => {
            let chars = chars_of(s.as_str());
            if check_float_text(&chars) {
                Ok((Coerced::Float(FloatSource::Text(chars)), None))
            } else {
                Err(ConversionError::InvalidNumericString { value: chars })
            }
        },
        _ => Err(ConversionError::UnsupportedConversion { from: v.kind_name(), to: t }),
    }
}

/// Converts an instant, given with its calendar date, for a target that
/// reads its fields (text, binary, timestamp, date or time).
pub fn instant_to_target(ms: i64, date: Option<(i32, u32, u32)>, t: TargetKind) -> (r: Conversion)
    requires
        date matches Some(d) ==> d.1 <= 12 && d.2 <= 31,
    ensures
        conversion_view(r) == instant_model(ms, date, t),
{
    let d = match date {
        None => {
            let mut value: Vec<char> = Vec::new();
            push_int_text(&mut value, ms);
            return Err(ConversionError::InvalidDateTimeFormat { value });
        },
        Some(d) => d,
    };
    let tod = time_of_day_at(ms);
    let ghost tm = time_of_day(ms as int);
    assert(tm == (tod.0 as int, tod.1 as int, tod.2 as int, tod.3 as int));
    let nanos: u32 = tod.3 * 1_000_000;
    proof {
        crate::layout::lemma_pow256_values();
    }
    if t == TargetKind::Char || t == TargetKind::WChar {
        let mut text: Vec<char> = Vec::new();
        push_iso_text(&mut text, d, tod);
        return Ok((Coerced::Text(text), None));
    }
    let mut out: Vec<u8> = Vec::new();
    if t == TargetKind::Binary {
        push_int_le(&mut out, d.0 as i128, 4);
        push_int_le(&mut out, d.1 as i128, 4);
        push_int_le(&mut out, d.2 as i128, 4);
        push_int_le(&mut out, tod.0 as i128, 4);
        push_int_le(&mut out, tod.1 as i128, 4);
        push_int_le(&mut out, tod.2 as i128, 4);
        push_int_le(&mut out, nanos as i128, 4);
        return Ok((Coerced::Bytes(out), None));
    }
    if t == TargetKind::Time {
        push_int_le(&mut out, tod.0 as i128, 2);
        push_int_le(&mut out, tod.1 as i128, 2);
        push_int_le(&mut out, tod.2 as i128, 2);
        return Ok((Coerced::Fixed(out), if tod.3 != 0 { Some(Loss::SubSecond) } else { None }));
    }
    if !(-0x8000 <= d.0 && d.0 <= 0x7FFF) {
        let mut value: Vec<char> = Vec::new();
        push_int_text(&mut value, d.0 as i64);
        return Err(ConversionError::IntegralOverflow { value });
    }
    push_int_le(&mut out, d.0 as i128, 2);
    push_int_le(&mut out, d.1 as i128, 2);
    push_int_le(&mut out, d.2 as i128, 2);
    if t == TargetKind::Date {
        let lossy = tod.0 != 0 || tod.1 != 0 || tod.2 != 0 || tod.3 != 0;
        return Ok((Coerced::Fixed(out), if lossy { Some(Loss::TimeOfDay) } else { None }));
    }
    push_int_le(&mut out, tod.0 as i128, 2);
    push_int_le(&mut out, tod.1 as i128, 2);
    push_int_le(&mut out, tod.2 as i128, 2);
    push_int_le(&mut out, nanos as i128, 4);
    Ok((Coerced::Fixed(out), None))
}

/// Converts an instant for a target that reads its calendar fields.
fn instant_to(ms: i64, t: TargetKind) -> (r: Conversion)
    ensures
        conversion_view(r) == instant_model(ms, utc_date_of(ms), t),
{
    let date = utc_date(ms);
    instant_to_target(ms, date, t)
}

/// Converts `v` for a date or time structure target.
pub fn date_to(v: &DocumentValue, t: TargetKind) -> (r: Conversion)
    ensures
        conversion_view(r) == date_model(*v, t),
{
    match v {
        DocumentValue::Null | DocumentValue::Undefined => Ok((Coerced::Null, None)),
        DocumentValue::DateTime(ms) => instant_to(*ms, t),
        _ => Err(ConversionError::UnsupportedConversion { from: v.kind_name(), to: t }),
    }
}

fn text_of_str(s: &str) -> (r: Conversion)
    ensures
        r matches Ok((Coerced::Text(t), None)) && t@ == s@,
{
    Ok((Coerced::Text(chars_of(s)), None))
}

/// Converts `v` for a text target.
pub fn text_to(v: &DocumentValue, t: TargetKind) -> (r: Conversion)
    ensures
        conversion_view(r) == text_model(*v, t),
{
    match v {
        DocumentValue::Null | DocumentValue::Undefined => text_of_str("NULL"),
        DocumentValue::Boolean(b) => if *b {
            text_of_str("true")
        } else {
            text_of_str("false")
        },
        DocumentValue::Int32(i) => {
            let mut out: Vec<char> = Vec::new();
            push_int_text(&mut out, *i as i64);
            Ok((Coerced::Text(out), None))
        },
        DocumentValue::Int64(i) => {
            let mut out: Vec<char> = Vec::new();
            push_int_text(&mut out, *i);
            Ok((Coerced::Text(out), None))
        },
        DocumentValue::Double(d) => text_of_str(d.text.as_str()),
        DocumentValue::String(s) => text_of_str(s.as_str()),
        DocumentValue::Decimal128(b) => Ok((Coerced::Text(decimal128_chars(b)), None)),
        DocumentValue::DateTime(ms) => instant_to(*ms, t),
        _ => Ok((Coerced::Text(extjson_text(v)), None)),
    }
}

fn copy_bytes(b: &[u8]) -> (r: Vec<u8>)
    ensures
        r@ == b@,
{
    let mut r: Vec<u8> = Vec::new();
    let mut i: usize = 0;
    while i < b.len()
        invariant
            i <= b@.len(),
            r@ == b@.subrange(0, i as int),
        decreases b@.len() - i,
    {
        r.push(b[i]);
        assert(b@.subrange(0, i + 1) == b@.subrange(0, i as int).push(b@[i as int]));
        i = i + 1;
    }
    assert(b@.subrange(0, b@.len() as int) == b@);
    r
}

/// Converts `v` for a raw binary target.
pub fn binary_to(v: &DocumentValue) -> (r: Conversion)
    ensures
        conversion_view(r) == binary_model(*v),
{
    proof {
        crate::layout::lemma_pow256_values();
    }
    match v {
        DocumentValue::Null | DocumentValue::Undefined => Ok((Coerced::Null, None)),
        DocumentValue::Boolean(b) => {
            let mut out: Vec<u8> = Vec::new();
            out.push(if *b { 1u8 } else { 0u8 });
            assert(out@ == seq![if *b { 1u8 } else { 0u8 }]);
            Ok((Coerced::Bytes(out), None))
        },
        DocumentValue::Int32(i) => {
            let mut out: Vec<u8> = Vec::new();
            push_int_le(&mut out, *i as i128, 4);
            Ok((Coerced::Bytes(out), None))
        },
        DocumentValue::Int64(i) => {
            let mut out: Vec<u8> = Vec::new();
            push_int_le(&mut out, *i as i128, 8);
            Ok((Coerced::Bytes(out), None))
        },
        DocumentValue::Double(d) => {
            let mut out: Vec<u8> = Vec::new();
            push_int_le(&mut out, d.bits as i128, 8);
            Ok((Coerced::Bytes(out), None))
        },
        DocumentValue::String(s) => {
            let chars = chars_of(s.as_str());
            Ok((Coerced::Bytes(utf8_bytes(&chars)), None))
        },
        DocumentValue::Decimal128(b) => Ok((Coerced::Bytes(copy_bytes(b.as_slice())), None)),
        DocumentValue::Binary(bin) => Ok((Coerced::Bytes(copy_bytes(bin.bytes.as_slice())), None)),
        DocumentValue::DateTime(ms) => instant_to(*ms, TargetKind::Binary),
        _ => Err(ConversionError::UnsupportedConversion { from: v.kind_name(), to: TargetKind::Binary }),
    }
}

/// Converts `v` for a GUID target.
pub fn guid_to(v: &DocumentValue) -> (r: Conversion)
    ensures
        conversion_view(r) == guid_model(*v),
{
    match v {
        DocumentValue::Null | DocumentValue::Undefined => Ok((Coerced::Null, None)),
        DocumentValue::Binary(bin) => if bin.subtype == UUID_SUBTYPE {
            Ok((Coerced::Fixed(copy_bytes(bin.bytes.as_slice())), None))
        } else {
            Err(ConversionError::UnsupportedConversion { from: TypeName::BinData, to: TargetKind::Guid })
        },
        _ => Err(ConversionError::UnsupportedConversion { from: v.kind_name(), to: TargetKind::Guid }),
    }
}

/// Converts `v` for target `t`: the converted value with what was lost on
/// the way, or the reason no conversion exists.
pub fn coerce(v: &DocumentValue, t: TargetKind) -> (r: Conversion)
    ensures
        conversion_view(r) == coerce_model(*v, t),
{
    match t {
        TargetKind::Char | TargetKind::WChar => text_to(v, t),
        TargetKind::Binary => binary_to(v),
        TargetKind::Bit => bit_to(v),
        TargetKind::SBigInt | TargetKind::UBigInt | TargetKind::SLong | TargetKind::ULong => integer_to(v, t),
        TargetKind::Double | TargetKind::Float => float_to(v, t),
        TargetKind::Timestamp | TargetKind::Date | TargetKind::Time => date_to(v, t),
        TargetKind::Guid => guid_to(v),
    }
}

} // verus!
