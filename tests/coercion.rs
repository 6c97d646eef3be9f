use mongo_odbc::coerce::{coerce, Coerced, ConversionError, FloatSource, Loss, TargetKind};
use mongo_odbc::extjson::extjson_text;
use mongo_odbc::value::{BinaryValue, DocumentValue, DoubleValue, TypeName};
use std::str::FromStr;

fn s(x: &str) -> String {
    x.to_string()
}

fn text(v: &DocumentValue) -> String {
    match coerce(v, TargetKind::Char) {
        Ok((Coerced::Text(t), None)) => t.iter().collect(),
        other => panic!("expected text, got {:?}", other),
    }
}

fn ext(v: &DocumentValue) -> String {
    extjson_text(v).iter().collect()
}

fn fixed(v: &DocumentValue, t: TargetKind) -> (Vec<u8>, Option<Loss>) {
    match coerce(v, t) {
        Ok((Coerced::Fixed(b), loss)) => (b, loss),
        other => panic!("expected a fixed value, got {:?}", other),
    }
}

fn double(x: f64) -> DocumentValue {
    DocumentValue::Double(DoubleValue { bits: x.to_bits(), text: format!("{:?}", x) })
}

#[test]
fn object_id_and_max_key_text() {
    let oid = [0x63, 0x44, 0x8d, 0xfe, 0xd3, 0x84, 0x27, 0xa3, 0x5d, 0x53, 0x4e, 0x40];
    assert_eq!("{\"$oid\":\"63448dfed38427a35d534e40\"}", text(&DocumentValue::ObjectId(oid)));
    assert_eq!("{\"$maxKey\":1}", text(&DocumentValue::MaxKey));
    assert_eq!("{\"$minKey\":1}", text(&DocumentValue::MinKey));
}

#[test]
fn scalar_text() {
    assert_eq!("NULL", text(&DocumentValue::Null));
    assert_eq!("NULL", text(&DocumentValue::Undefined));
    assert_eq!("false", text(&DocumentValue::Boolean(false)));
    assert_eq!("-2147483648", text(&DocumentValue::Int32(i32::MIN)));
    assert_eq!("-9223372036854775808", text(&DocumentValue::Int64(i64::MIN)));
    assert_eq!("9223372036854775807", text(&DocumentValue::Int64(i64::MAX)));
    assert_eq!("2.5", text(&double(2.5)));
    assert_eq!("", text(&DocumentValue::String(s(""))));
}

#[test]
fn instant_text() {
    assert_eq!("1970-01-01T00:00:00.000Z", text(&DocumentValue::DateTime(0)));
    assert_eq!("1969-12-31T23:59:59.999Z", text(&DocumentValue::DateTime(-1)));
    assert_eq!("2000-01-12T01:02:03.004Z", text(&DocumentValue::DateTime(947638923004)));
    assert!(matches!(
        coerce(&DocumentValue::DateTime(i64::MAX), TargetKind::Char),
        Err(ConversionError::InvalidDateTimeFormat { .. })
    ));
}

#[test]
fn decimal128_text() {
    let d = bson::Decimal128::from_str("1.5").unwrap();
    let v = DocumentValue::Decimal128(d.bytes());
    assert_eq!("1.5", text(&v));
    assert_eq!("{\"$numberDecimal\":\"1.5\"}", ext(&v));
    match coerce(&v, TargetKind::SBigInt) {
        Ok((Coerced::Fixed(b), Some(Loss::Decimal128Unconverted))) => assert_eq!(vec![0u8; 8], b),
        other => panic!("unexpected {:?}", other),
    }
}

#[test]
fn extended_json_of_each_kind() {
    assert_eq!("{\"$undefined\":true}", ext(&DocumentValue::Undefined));
    assert_eq!("null", ext(&DocumentValue::Null));
    assert_eq!("{\"$numberInt\":\"-7\"}", ext(&DocumentValue::Int32(-7)));
    assert_eq!("{\"$numberLong\":\"12\"}", ext(&DocumentValue::Int64(12)));
    assert_eq!("{\"$numberDouble\":\"1.3\"}", ext(&double(1.3)));
    assert_eq!("{\"$date\":{\"$numberLong\":\"1417176009000\"}}", ext(&DocumentValue::DateTime(1417176009000)));
    assert_eq!("{\"$symbol\":\"sym\"}", ext(&DocumentValue::Symbol(s("sym"))));
    assert_eq!(
        "{\"$timestamp\":{\"t\":12,\"i\":3}}",
        ext(&DocumentValue::Timestamp { time: 12, increment: 3 })
    );
    assert_eq!(
        "{\"$dbPointer\":{\"$ref\":\"db.c\",\"$id\":{\"$oid\":\"000000000000000000000001\"}}}",
        ext(&DocumentValue::DbPointer { namespace: s("db.c"), id: [0, 0, 0, 0, 0, 0, 0, 0, 0, 0, 0, 1] })
    );
    assert_eq!(
        "{\"$regularExpression\":{\"pattern\":\"a\",\"options\":\"imx\"}}",
        ext(&DocumentValue::RegularExpression { pattern: s("a"), options: s("xmi") })
    );
    assert_eq!("[]", ext(&DocumentValue::Array(vec![])));
    assert_eq!("{}", ext(&DocumentValue::Document(vec![])));
    assert_eq!(
        "{\"a\":[null,{\"$undefined\":true}],\"b\":true}",
        ext(&DocumentValue::Document(vec![
            (s("a"), DocumentValue::Array(vec![DocumentValue::Null, DocumentValue::Undefined])),
            (s("b"), DocumentValue::Boolean(true)),
        ]))
    );
}

#[test]
fn json_string_escaping() {
    assert_eq!(
        "\"q\\\"b\\\\n\\nt\\tc\\u0001d\\b\\f\\r\u{7f}é\"",
        ext(&DocumentValue::String(s("q\"b\\n\nt\tc\u{1}d\u{8}\u{c}\r\u{7f}é")))
    );
}

#[test]
fn base64_padding() {
    let bin = |b: Vec<u8>, t: u8| ext(&DocumentValue::Binary(BinaryValue { subtype: t, bytes: b }));
    assert_eq!("{\"$binary\":{\"base64\":\"\",\"subType\":\"00\"}}", bin(vec![], 0));
    assert_eq!("{\"$binary\":{\"base64\":\"/w==\",\"subType\":\"80\"}}", bin(vec![255], 0x80));
    assert_eq!("{\"$binary\":{\"base64\":\"+/8=\",\"subType\":\"04\"}}", bin(vec![251, 255], 4));
    assert_eq!("{\"$binary\":{\"base64\":\"AAECAw==\",\"subType\":\"0a\"}}", bin(vec![0, 1, 2, 3], 10));
}

#[test]
fn numeric_strings() {
    let v = |x: &str| DocumentValue::String(s(x));
    assert_eq!((42i32.to_le_bytes().to_vec(), None), fixed(&v("+42"), TargetKind::SLong));
    assert_eq!(((-42i64).to_le_bytes().to_vec(), None), fixed(&v("-42"), TargetKind::SBigInt));
    assert_eq!((u64::MAX.to_le_bytes().to_vec(), None), fixed(&v("18446744073709551615"), TargetKind::UBigInt));
    assert_eq!((0u32.to_le_bytes().to_vec(), None), fixed(&v("-0"), TargetKind::ULong));
    for bad in ["", "-", "1.5", " 1", "0x10", "1e3"] {
        assert!(matches!(coerce(&v(bad), TargetKind::SBigInt), Err(ConversionError::InvalidNumericString { .. })));
    }
    for over in ["18446744073709551616", "99999999999999999999999999999", "-1"] {
        assert!(matches!(coerce(&v(over), TargetKind::UBigInt), Err(ConversionError::IntegralOverflow { .. })));
    }
    assert!(matches!(coerce(&v("2147483648"), TargetKind::SLong), Err(ConversionError::IntegralOverflow { .. })));
    assert_eq!((i32::MIN.to_le_bytes().to_vec(), None), fixed(&v("-2147483648"), TargetKind::SLong));
}

#[test]
fn float_strings() {
    let v = |x: &str| DocumentValue::String(s(x));
    for good in ["1", "-1.5", ".5", "5.", "1e10", "+2.5E-3"] {
        match coerce(&v(good), TargetKind::Double) {
            Ok((Coerced::Float(FloatSource::Text(t)), None)) => assert_eq!(good, t.iter().collect::<String>()),
            other => panic!("unexpected {:?}", other),
        }
    }
    for bad in ["", ".", "e5", "1e", "1.2.3", "hello world!", "--1"] {
        assert!(matches!(coerce(&v(bad), TargetKind::Float), Err(ConversionError::InvalidNumericString { .. })));
    }
}

#[test]
fn double_truncation() {
    let i64_of = |x: f64| fixed(&double(x), TargetKind::SBigInt);
    assert_eq!(((-1i64).to_le_bytes().to_vec(), Some(Loss::FractionalPart)), i64_of(-1.7));
    assert_eq!((0i64.to_le_bytes().to_vec(), Some(Loss::FractionalPart)), i64_of(0.25));
    assert_eq!((0i64.to_le_bytes().to_vec(), None), i64_of(-0.0));
    assert_eq!((4096i64.to_le_bytes().to_vec(), None), i64_of(4096.0));
    assert_eq!((i64::MIN.to_le_bytes().to_vec(), None), i64_of(-9223372036854775808.0));
    assert_eq!((0i64.to_le_bytes().to_vec(), Some(Loss::FractionalPart)), i64_of(5e-324));
    for x in [9223372036854775808.0, f64::NAN, f64::INFINITY, 1e300] {
        assert!(matches!(coerce(&double(x), TargetKind::SBigInt), Err(ConversionError::IntegralOverflow { .. })));
    }
    assert_eq!(
        (u64::MAX.to_le_bytes().to_vec(), None),
        fixed(&DocumentValue::String(s("18446744073709551615")), TargetKind::UBigInt)
    );
    assert_eq!((0u64.to_le_bytes().to_vec(), Some(Loss::FractionalPart)), fixed(&double(-0.5), TargetKind::UBigInt));
    assert!(matches!(coerce(&double(-1.5), TargetKind::UBigInt), Err(ConversionError::IntegralOverflow { .. })));
    assert_eq!((vec![0u8], None), fixed(&double(-0.0), TargetKind::Bit));
    assert_eq!((vec![1u8], None), fixed(&double(f64::NAN), TargetKind::Bit));
}

#[test]
fn boolean_and_integer_table() {
    assert_eq!((1i64.to_le_bytes().to_vec(), None), fixed(&DocumentValue::Boolean(true), TargetKind::SBigInt));
    assert_eq!((1i64.to_le_bytes().to_vec(), None), fixed(&DocumentValue::Int32(1), TargetKind::SBigInt));
    match coerce(&DocumentValue::Boolean(true), TargetKind::Double) {
        Ok((Coerced::Float(FloatSource::Bits(b)), None)) => assert_eq!(1.0f64.to_bits(), b),
        other => panic!("unexpected {:?}", other),
    }
    assert_eq!((1i32.to_le_bytes().to_vec(), Some(Loss::FractionalPart)), fixed(&double(1.3), TargetKind::SLong));
    assert!(matches!(
        coerce(&DocumentValue::Int64(5_000_000_000), TargetKind::SLong),
        Err(ConversionError::IntegralOverflow { .. })
    ));
    assert_eq!((vec![1u8], None), fixed(&DocumentValue::String(s("true")), TargetKind::Bit));
    assert_eq!((vec![1u8], None), fixed(&DocumentValue::String(s("1")), TargetKind::Bit));
    assert_eq!((vec![0u8], None), fixed(&DocumentValue::String(s("True")), TargetKind::Bit));
    match coerce(&DocumentValue::Timestamp { time: 1, increment: 1 }, TargetKind::SLong) {
        Err(ConversionError::UnsupportedConversion { from, to }) => {
            assert_eq!(TypeName::Timestamp, from);
            assert_eq!(TargetKind::SLong, to);
        }
        other => panic!("unexpected {:?}", other),
    }
}

#[test]
fn instant_fields() {
    // 1969-12-31T23:59:59.999Z
    let (b, loss) = fixed(&DocumentValue::DateTime(-1), TargetKind::Timestamp);
    let mut expected: Vec<u8> = [1969u16, 12, 31, 23, 59, 59].iter().flat_map(|x| x.to_le_bytes()).collect();
    expected.extend_from_slice(&999_000_000u32.to_le_bytes());
    assert_eq!(expected, b);
    assert_eq!(None, loss);
    let (b, loss) = fixed(&DocumentValue::DateTime(-1), TargetKind::Time);
    assert_eq!([23u16, 59, 59].iter().flat_map(|x| x.to_le_bytes()).collect::<Vec<u8>>(), b);
    assert_eq!(Some(Loss::SubSecond), loss);
    let (b, loss) = fixed(&DocumentValue::DateTime(0), TargetKind::Date);
    assert_eq!([1970u16, 1, 1].iter().flat_map(|x| x.to_le_bytes()).collect::<Vec<u8>>(), b);
    assert_eq!(None, loss);
    // year 40000 does not fit a 16-bit year
    assert!(matches!(
        coerce(&DocumentValue::DateTime(1_200_000_000_000_000), TargetKind::Date),
        Err(ConversionError::IntegralOverflow { .. })
    ));
}
