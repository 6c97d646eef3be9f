use mongo_odbc::coerce::{ConversionError, FloatSource, Loss, TargetKind};
use mongo_odbc::cursor::{ColumnMetadata, DataError, MongoQuery, Row, Schema};
use mongo_odbc::transfer::{Delivery, Destination, Indicator, Notice, TransferStatus};
use mongo_odbc::value::{BinaryValue, DocumentValue, DoubleValue, TypeName};

const ARRAY_COL: u16 = 1;
const BIN_COL: u16 = 2;
const BOOL_COL: u16 = 3;
const DATETIME_COL: u16 = 4;
const DOC_COL: u16 = 5;
const DOUBLE_COL: u16 = 6;
const I32_COL: u16 = 7;
const I64_COL: u16 = 8;
const JS_COL: u16 = 9;
const JS_W_S_COL: u16 = 10;
const MAXKEY_COL: u16 = 11;
const MINKEY_COL: u16 = 12;
const NULL_COL: u16 = 13;
const OID_COL: u16 = 14;
const REGEX_COL: u16 = 15;
const STRING_COL: u16 = 16;
const UNDEFINED_COL: u16 = 17;
const UNICODE_COL: u16 = 18;
const NEGATIVE_COL: u16 = 19;
const UNIT_STR_COL: u16 = 20;
const GUID_COL: u16 = 21;

// 2014-11-28T12:00:09Z
const DATETIME_MS: i64 = 1417176009000;

fn s(x: &str) -> String {
    x.to_string()
}

fn oid() -> [u8; 12] {
    [0x63, 0x44, 0x8d, 0xfe, 0xd3, 0x84, 0x27, 0xa3, 0x5d, 0x53, 0x4e, 0x40]
}

fn double(x: f64, text: &str) -> DocumentValue {
    DocumentValue::Double(DoubleValue { bits: x.to_bits(), text: s(text) })
}

fn fields() -> Vec<(String, DocumentValue)> {
    vec![
        (s("array"), DocumentValue::Array(vec![DocumentValue::Int32(1), DocumentValue::Int32(2), DocumentValue::Int32(3)])),
        (s("binary"), DocumentValue::Binary(BinaryValue { subtype: 0, bytes: vec![5, 6, 42] })),
        (s("bool"), DocumentValue::Boolean(true)),
        (s("datetime"), DocumentValue::DateTime(DATETIME_MS)),
        (
            s("doc"),
            DocumentValue::Document(vec![(s("x"), DocumentValue::Int32(42)), (s("y"), DocumentValue::Int32(42))]),
        ),
        (s("f64"), double(1.3, "1.3")),
        (s("i3232"), DocumentValue::Int32(1)),
        (s("i3264"), DocumentValue::Int64(0)),
        (s("js"), DocumentValue::JavaScriptCode(s("log(\"hello world\")"))),
        (
            s("js_w_s"),
            DocumentValue::JavaScriptCodeWithScope {
                code: s("log(\"hello\" + x + \"world\")"),
                scope: vec![(s("x"), DocumentValue::Int32(42))],
            },
        ),
        (s("max_key"), DocumentValue::MaxKey),
        (s("min_key"), DocumentValue::MinKey),
        (s("null"), DocumentValue::Null),
        (s("oid"), DocumentValue::ObjectId(oid())),
        (s("regex"), DocumentValue::RegularExpression { pattern: s("hello .* world"), options: s("") }),
        (s("string"), DocumentValue::String(s("hello world!"))),
        (s("undefined"), DocumentValue::Undefined),
        (s("unicode"), DocumentValue::String(s("你好，世界，这是一个中文句子"))),
        (s("negative_long"), DocumentValue::Int64(-1)),
        (s("unit_str"), DocumentValue::String(s("a"))),
        (
            s("guid"),
            DocumentValue::Binary(BinaryValue {
                subtype: 4,
                bytes: vec![0, 1, 2, 3, 4, 5, 6, 7, 9, 10, 11, 12, 13, 14, 15],
            }),
        ),
    ]
}

fn metadata() -> Vec<ColumnMetadata> {
    let names = [
        ("array", Schema::Array(TypeName::Int)),
        ("binary", Schema::Scalar(TypeName::BinData)),
        ("bool", Schema::Scalar(TypeName::Bool)),
        ("datetime", Schema::Scalar(TypeName::Date)),
        ("doc", Schema::Object),
        ("f64", Schema::Scalar(TypeName::Double)),
        ("i3232", Schema::Scalar(TypeName::Int)),
        ("i3264", Schema::Scalar(TypeName::Long)),
        ("js", Schema::Scalar(TypeName::Javascript)),
        ("js_w_s", Schema::Scalar(TypeName::JavascriptWithScope)),
        ("max_key", Schema::Scalar(TypeName::MaxKey)),
        ("min_key", Schema::Scalar(TypeName::MinKey)),
        ("null", Schema::Scalar(TypeName::Null)),
        ("oid", Schema::Scalar(TypeName::ObjectId)),
        ("regex", Schema::Scalar(TypeName::Regex)),
        ("string", Schema::Scalar(TypeName::String)),
        ("undefined", Schema::Scalar(TypeName::Undefined)),
        ("unicode", Schema::Scalar(TypeName::String)),
        ("negative_long", Schema::Scalar(TypeName::Long)),
        ("unit_str", Schema::Scalar(TypeName::String)),
        ("guid", Schema::Scalar(TypeName::BinData)),
    ];
    names.iter().map(|(n, t)| ColumnMetadata::new(s("test"), s(n), *t, false)).collect()
}

fn fixture() -> MongoQuery {
    let row: Row = vec![(s("test"), DocumentValue::Document(fields()))];
    let mut q = MongoQuery::new(vec![row], metadata());
    assert!(q.next());
    q
}

fn encode(src: FloatSource, single: bool) -> Vec<u8> {
    if single {
        let x: f32 = match src {
            FloatSource::Bits(b) => f64::from_bits(b) as f32,
            FloatSource::Integer(i) => i as f32,
            FloatSource::Text(t) => t.iter().collect::<String>().parse::<f32>().unwrap(),
        };
        x.to_le_bytes().to_vec()
    } else {
        let x: f64 = match src {
            FloatSource::Bits(b) => f64::from_bits(b),
            FloatSource::Integer(i) => i as f64,
            FloatSource::Text(t) => t.iter().collect::<String>().parse::<f64>().unwrap(),
        };
        x.to_le_bytes().to_vec()
    }
}

fn get(q: &mut MongoQuery, col: u16, t: TargetKind, cap: usize) -> Result<Delivery, DataError> {
    q.get_data(col, t, Destination { capacity: Some(cap), has_indicator: true }, encode)
}

fn wide(d: &Delivery) -> String {
    let units: Vec<u16> = d.data.chunks(2).map(|c| u16::from_le_bytes([c[0], c[1]])).collect();
    let end = units.iter().position(|u| *u == 0).unwrap_or(units.len());
    String::from_utf16(&units[..end]).unwrap()
}

fn narrow(d: &Delivery) -> String {
    let end = d.data.iter().position(|b| *b == 0).unwrap_or(d.data.len());
    String::from_utf8(d.data[..end].to_vec()).unwrap()
}

fn unsupported(r: Result<Delivery, DataError>, from: TypeName, to: TargetKind) {
    match r {
        Err(DataError::Conversion(ConversionError::UnsupportedConversion { from: f, to: t })) => {
            assert_eq!(f, from);
            assert_eq!(t, to);
        }
        other => panic!("expected an unsupported conversion, got {:?}", other),
    }
}

fn null_twice(q: &mut MongoQuery, col: u16, t: TargetKind) {
    let first = get(q, col, t, 100).unwrap();
    assert_eq!(TransferStatus::Success, first.status);
    assert_eq!(Some(Indicator::Null), first.indicator);
    let second = get(q, col, t, 100).unwrap();
    assert_eq!(TransferStatus::NoData, second.status);
    assert_eq!(None, second.indicator);
}

#[test]
fn sql_fetch_and_more_results_basic_functionality() {
    let rows: Vec<Row> = [42, 43, 44]
        .iter()
        .map(|b| vec![(s("a"), DocumentValue::Document(vec![(s("b"), DocumentValue::Int32(*b))]))])
        .collect();
    let md = vec![ColumnMetadata::new(s("a"), s("b"), Schema::Scalar(TypeName::Int), false)];
    let mut q = MongoQuery::new(rows, md);
    for expected in [42i64, 43, 44] {
        assert!(q.next());
        let d = get(&mut q, 1, TargetKind::SBigInt, 8).unwrap();
        assert_eq!(expected.to_le_bytes().to_vec(), d.data);
    }
    assert!(!q.next());
    assert!(matches!(get(&mut q, 1, TargetKind::SBigInt, 8), Err(DataError::InvalidCursorState)));
}

#[test]
fn read_before_first_row_is_invalid_cursor_state() {
    let md = vec![ColumnMetadata::new(s("a"), s("b"), Schema::Scalar(TypeName::Int), false)];
    let mut q = MongoQuery::new(vec![], md);
    assert!(matches!(get(&mut q, 1, TargetKind::Char, 8), Err(DataError::InvalidCursorState)));
    assert!(!q.next());
    assert!(!q.next());
}

#[test]
fn column_addressing_is_one_based() {
    let rows: Vec<Row> = vec![vec![(s("a"), DocumentValue::Document(vec![(s("b"), DocumentValue::Int32(42))]))]];
    let md = vec![ColumnMetadata::new(s("a"), s("b"), Schema::Scalar(TypeName::Int), false)];
    let mut q = MongoQuery::new(rows, md);
    assert!(q.next());
    assert!(matches!(q.get_value(1), Ok(Some(DocumentValue::Int32(42)))));
    assert!(matches!(q.get_value(0), Err(DataError::ColumnIndexOutOfBounds(0))));
    assert!(matches!(q.get_value(2), Err(DataError::ColumnIndexOutOfBounds(2))));
    assert_eq!(1, q.get_resultset_metadata().len());
}

#[test]
fn missing_field_reads_as_null() {
    let rows: Vec<Row> = vec![vec![(s("a"), DocumentValue::Document(vec![]))]];
    let md = vec![
        ColumnMetadata::new(s("a"), s("b"), Schema::Any, true),
        ColumnMetadata::new(s("z"), s("b"), Schema::Any, true),
    ];
    let mut q = MongoQuery::new(rows, md);
    assert!(q.next());
    assert!(matches!(q.get_value(1), Ok(None)));
    null_twice(&mut q, 1, TargetKind::SLong);
    null_twice(&mut q, 2, TargetKind::Char);
}

#[test]
fn advancing_resets_pieces() {
    let rows: Vec<Row> = ["abcdef", "xyz"]
        .iter()
        .map(|t| vec![(s("a"), DocumentValue::Document(vec![(s("b"), DocumentValue::String(s(t)))]))])
        .collect();
    let md = vec![ColumnMetadata::new(s("a"), s("b"), Schema::Scalar(TypeName::String), false)];
    let mut q = MongoQuery::new(rows, md);
    assert!(q.next());
    let d = get(&mut q, 1, TargetKind::Char, 3).unwrap();
    assert_eq!("ab", narrow(&d));
    assert!(q.next());
    let d = get(&mut q, 1, TargetKind::Char, 10).unwrap();
    assert_eq!("xyz", narrow(&d));
    assert_eq!(Some(Indicator::Length(3)), d.indicator);
}

#[test]
fn indicator_missing() {
    let mut q = fixture();
    let d = q
        .get_data(NULL_COL, TargetKind::WChar, Destination { capacity: Some(100), has_indicator: false }, encode)
        .unwrap();
    assert_eq!(TransferStatus::SuccessWithInfo, d.status);
    assert_eq!(Some(Notice::NullIndicatorMissing), d.notice);
    assert_eq!(None, d.indicator);
}

#[test]
fn sql_get_wstring_data_by_pieces() {
    let mut q = fixture();
    let steps: [(usize, &str, TransferStatus); 7] = [
        (58, "[{\"$numbe", TransferStatus::SuccessWithInfo),
        (49, "rInt\":\"1\"", TransferStatus::SuccessWithInfo),
        (40, "},{\"$numb", TransferStatus::SuccessWithInfo),
        (31, "erInt\":\"2", TransferStatus::SuccessWithInfo),
        (22, "\"},{\"$num", TransferStatus::SuccessWithInfo),
        (13, "berInt\":\"", TransferStatus::SuccessWithInfo),
        (4, "3\"}]", TransferStatus::Success),
    ];
    for (len, text, status) in steps {
        let d = get(&mut q, ARRAY_COL, TargetKind::WChar, 10).unwrap();
        assert_eq!(status, d.status);
        if status == TransferStatus::SuccessWithInfo {
            assert_eq!(Some(Notice::Truncated), d.notice);
        }
        assert_eq!(Some(Indicator::Length(len)), d.indicator);
        assert_eq!(text, wide(&d));
    }
    assert_eq!(TransferStatus::NoData, get(&mut q, ARRAY_COL, TargetKind::WChar, 10).unwrap().status);

    let d = get(&mut q, UNICODE_COL, TargetKind::WChar, 10).unwrap();
    assert_eq!(TransferStatus::SuccessWithInfo, d.status);
    assert_eq!(Some(Indicator::Length(14)), d.indicator);
    assert_eq!("你好，世界，这是一", wide(&d));
    let d = get(&mut q, UNICODE_COL, TargetKind::WChar, 10).unwrap();
    assert_eq!(TransferStatus::Success, d.status);
    assert_eq!(Some(Indicator::Length(5)), d.indicator);
    assert_eq!("个中文句子", wide(&d));
    assert_eq!(TransferStatus::NoData, get(&mut q, UNICODE_COL, TargetKind::WChar, 10).unwrap().status);
}

#[test]
fn sql_get_string_data_by_pieces() {
    let mut q = fixture();
    let steps: [(usize, &str, TransferStatus); 7] = [
        (58, "[{\"$numbe", TransferStatus::SuccessWithInfo),
        (49, "rInt\":\"1\"", TransferStatus::SuccessWithInfo),
        (40, "},{\"$numb", TransferStatus::SuccessWithInfo),
        (31, "erInt\":\"2", TransferStatus::SuccessWithInfo),
        (22, "\"},{\"$num", TransferStatus::SuccessWithInfo),
        (13, "berInt\":\"", TransferStatus::SuccessWithInfo),
        (4, "3\"}]", TransferStatus::Success),
    ];
    for (len, text, status) in steps {
        let d = get(&mut q, ARRAY_COL, TargetKind::Char, 10).unwrap();
        assert_eq!(status, d.status);
        assert_eq!(Some(Indicator::Length(len)), d.indicator);
        assert_eq!(text, narrow(&d));
    }
    assert_eq!(TransferStatus::NoData, get(&mut q, ARRAY_COL, TargetKind::Char, 10).unwrap().status);
}

#[test]
fn sql_get_guid_data() {
    let mut q = fixture();
    unsupported(get(&mut q, BIN_COL, TargetKind::Guid, 100), TypeName::BinData, TargetKind::Guid);
    unsupported(get(&mut q, STRING_COL, TargetKind::Guid, 100), TypeName::String, TargetKind::Guid);
    let d = get(&mut q, GUID_COL, TargetKind::Guid, 100).unwrap();
    assert_eq!(TransferStatus::Success, d.status);
    assert_eq!(vec![0u8, 1, 2, 3, 4, 5, 6, 7, 9, 10, 11, 12, 13, 14, 15], d.data);
}

#[test]
fn sql_get_binary_data() {
    let mut q = fixture();
    let mut bin = |col: u16, expected: &[u8]| {
        let d = get(&mut q, col, TargetKind::Binary, 100).unwrap();
        assert_eq!(TransferStatus::Success, d.status);
        assert_eq!(Some(Indicator::Length(expected.len())), d.indicator);
        assert_eq!(expected.to_vec(), d.data);
    };
    bin(BIN_COL, &[5, 6, 42]);
    bin(BOOL_COL, &[1u8]);
    bin(
        DATETIME_COL,
        &[222, 7, 0, 0, 11, 0, 0, 0, 28, 0, 0, 0, 12, 0, 0, 0, 0, 0, 0, 0, 9, 0, 0, 0, 0, 0, 0, 0],
    );
    bin(DOUBLE_COL, &[205, 204, 204, 204, 204, 204, 244, 63]);
    bin(I32_COL, &[1, 0, 0, 0]);
    bin(I64_COL, &[0, 0, 0, 0, 0, 0, 0, 0]);
    bin(STRING_COL, &[104, 101, 108, 108, 111, 32, 119, 111, 114, 108, 100, 33]);
    bin(UNIT_STR_COL, &[97]);
    for (col, kind) in [
        (ARRAY_COL, TypeName::Array),
        (DOC_COL, TypeName::Object),
        (JS_COL, TypeName::Javascript),
        (JS_W_S_COL, TypeName::JavascriptWithScope),
        (MAXKEY_COL, TypeName::MaxKey),
        (MINKEY_COL, TypeName::MinKey),
        (OID_COL, TypeName::ObjectId),
        (REGEX_COL, TypeName::Regex),
    ] {
        unsupported(get(&mut q, col, TargetKind::Binary, 100), kind, TargetKind::Binary);
    }
    null_twice(&mut q, NULL_COL, TargetKind::Binary);
    null_twice(&mut q, UNDEFINED_COL, TargetKind::Binary);
}

#[test]
fn sql_get_binary_data_by_pieces() {
    let mut q = fixture();
    let d = get(&mut q, BIN_COL, TargetKind::Binary, 2).unwrap();
    assert_eq!(TransferStatus::SuccessWithInfo, d.status);
    assert_eq!(Some(Notice::Truncated), d.notice);
    assert_eq!(Some(Indicator::Length(3)), d.indicator);
    assert_eq!(vec![5u8, 6], d.data);
    let d = get(&mut q, BIN_COL, TargetKind::Binary, 2).unwrap();
    assert_eq!(TransferStatus::Success, d.status);
    assert_eq!(Some(Indicator::Length(1)), d.indicator);
    assert_eq!(vec![42u8], d.data);
    assert_eq!(TransferStatus::NoData, get(&mut q, BIN_COL, TargetKind::Binary, 2).unwrap().status);
}

fn text_cases() -> Vec<(u16, &'static str)> {
    vec![
        (ARRAY_COL, "[{\"$numberInt\":\"1\"},{\"$numberInt\":\"2\"},{\"$numberInt\":\"3\"}]"),
        (BIN_COL, "{\"$binary\":{\"base64\":\"BQYq\",\"subType\":\"00\"}}"),
        (BOOL_COL, "true"),
        (DATETIME_COL, "2014-11-28T12:00:09.000Z"),
        (DOC_COL, "{\"x\":{\"$numberInt\":\"42\"},\"y\":{\"$numberInt\":\"42\"}}"),
        (DOUBLE_COL, "1.3"),
        (I32_COL, "1"),
        (I64_COL, "0"),
        (JS_COL, "{\"$code\":\"log(\\\"hello world\\\")\"}"),
        (
            JS_W_S_COL,
            "{\"$code\":\"log(\\\"hello\\\" + x + \\\"world\\\")\",\"$scope\":{\"x\":{\"$numberInt\":\"42\"}}}",
        ),
        (MAXKEY_COL, "{\"$maxKey\":1}"),
        (MINKEY_COL, "{\"$minKey\":1}"),
        (OID_COL, "{\"$oid\":\"63448dfed38427a35d534e40\"}"),
        (REGEX_COL, "{\"$regularExpression\":{\"pattern\":\"hello .* world\",\"options\":\"\"}}"),
        (STRING_COL, "hello world!"),
        (NEGATIVE_COL, "-1"),
        (UNIT_STR_COL, "a"),
    ]
}

#[test]
fn text_of_each_column() {
    let mut q = fixture();
    for (col, expected) in text_cases() {
        let d = get(&mut q, col, TargetKind::Char, 100).unwrap();
        assert_eq!(TransferStatus::Success, d.status);
        assert_eq!(Some(Indicator::Length(expected.len())), d.indicator);
        assert_eq!(expected, narrow(&d));
        assert_eq!(TransferStatus::NoData, get(&mut q, col, TargetKind::Char, 100).unwrap().status);
    }
    null_twice(&mut q, NULL_COL, TargetKind::Char);
    null_twice(&mut q, UNDEFINED_COL, TargetKind::Char);
}

#[test]
fn wide_text_of_each_column() {
    let mut q = fixture();
    for (col, expected) in text_cases() {
        let d = get(&mut q, col, TargetKind::WChar, 100).unwrap();
        assert_eq!(TransferStatus::Success, d.status);
        assert_eq!(Some(Indicator::Length(expected.encode_utf16().count())), d.indicator);
        assert_eq!(expected, wide(&d));
    }
    null_twice(&mut q, NULL_COL, TargetKind::WChar);
    null_twice(&mut q, UNDEFINED_COL, TargetKind::WChar);
}

fn not_numeric() -> Vec<(u16, TypeName)> {
    vec![
        (ARRAY_COL, TypeName::Array),
        (BIN_COL, TypeName::BinData),
        (DOC_COL, TypeName::Object),
        (JS_COL, TypeName::Javascript),
        (JS_W_S_COL, TypeName::JavascriptWithScope),
        (MAXKEY_COL, TypeName::MaxKey),
        (MINKEY_COL, TypeName::MinKey),
        (OID_COL, TypeName::ObjectId),
        (REGEX_COL, TypeName::Regex),
    ]
}

#[test]
fn bit_of_each_column() {
    let mut q = fixture();
    for (col, expected, loss) in [
        (BOOL_COL, 1u8, None),
        (DOUBLE_COL, 1, Some(Loss::FractionalPart)),
        (I32_COL, 1, None),
        (I64_COL, 0, None),
        (STRING_COL, 0, None),
        (NEGATIVE_COL, 1, None),
    ] {
        let d = get(&mut q, col, TargetKind::Bit, 10).unwrap();
        assert_eq!(vec![expected], d.data);
        assert_eq!(Some(Indicator::Length(1)), d.indicator);
        match loss {
            None => assert_eq!(TransferStatus::Success, d.status),
            Some(l) => {
                assert_eq!(TransferStatus::SuccessWithInfo, d.status);
                assert_eq!(Some(Notice::PrecisionLoss(l)), d.notice);
            }
        }
        assert_eq!(TransferStatus::NoData, get(&mut q, col, TargetKind::Bit, 10).unwrap().status);
    }
    for (col, kind) in not_numeric() {
        unsupported(get(&mut q, col, TargetKind::Bit, 10), kind, TargetKind::Bit);
    }
    unsupported(get(&mut q, DATETIME_COL, TargetKind::Bit, 10), TypeName::Date, TargetKind::Bit);
    null_twice(&mut q, NULL_COL, TargetKind::Bit);
    null_twice(&mut q, UNDEFINED_COL, TargetKind::Bit);
}

fn int_checks(t: TargetKind, width: usize) {
    let mut q = fixture();
    let bytes = |n: i64| n.to_le_bytes()[..width].to_vec();
    let mut cases = vec![
        (BOOL_COL, bytes(1), None),
        (DOUBLE_COL, bytes(1), Some(Loss::FractionalPart)),
        (I32_COL, bytes(1), None),
        (I64_COL, bytes(0), None),
    ];
    if t == TargetKind::SBigInt || t == TargetKind::UBigInt {
        cases.push((DATETIME_COL, bytes(DATETIME_MS), None));
    }
    for (col, expected, loss) in cases {
        let d = get(&mut q, col, t, 10).unwrap();
        assert_eq!(expected, d.data);
        assert_eq!(Some(Indicator::Length(width)), d.indicator);
        match loss {
            None => assert_eq!(TransferStatus::Success, d.status),
            Some(l) => assert_eq!(Some(Notice::PrecisionLoss(l)), d.notice),
        }
    }
    for (col, kind) in not_numeric() {
        unsupported(get(&mut q, col, t, 10), kind, t);
    }
    match get(&mut q, STRING_COL, t, 10) {
        Err(DataError::Conversion(ConversionError::InvalidNumericString { value })) => {
            assert_eq!("hello world!", value.iter().collect::<String>())
        }
        other => panic!("expected an invalid numeric string, got {:?}", other),
    }
    null_twice(&mut q, NULL_COL, t);
    null_twice(&mut q, UNDEFINED_COL, t);
}

#[test]
fn i64_of_each_column() {
    int_checks(TargetKind::SBigInt, 8);
    let mut q = fixture();
    assert_eq!((-1i64).to_le_bytes().to_vec(), get(&mut q, NEGATIVE_COL, TargetKind::SBigInt, 8).unwrap().data);
}

#[test]
fn i32_of_each_column() {
    int_checks(TargetKind::SLong, 4);
    let mut q = fixture();
    match get(&mut q, DATETIME_COL, TargetKind::SLong, 4) {
        Err(DataError::Conversion(ConversionError::IntegralOverflow { value })) => {
            assert_eq!("1417176009000", value.iter().collect::<String>())
        }
        other => panic!("expected an overflow, got {:?}", other),
    }
}

#[test]
fn u64_of_each_column() {
    int_checks(TargetKind::UBigInt, 8);
    let mut q = fixture();
    match get(&mut q, NEGATIVE_COL, TargetKind::UBigInt, 8) {
        Err(DataError::Conversion(ConversionError::IntegralOverflow { value })) => {
            assert_eq!("-1", value.iter().collect::<String>())
        }
        other => panic!("expected an overflow, got {:?}", other),
    }
}

#[test]
fn u32_of_each_column() {
    int_checks(TargetKind::ULong, 4);
    let mut q = fixture();
    assert!(matches!(
        get(&mut q, NEGATIVE_COL, TargetKind::ULong, 4),
        Err(DataError::Conversion(ConversionError::IntegralOverflow { .. }))
    ));
}

#[test]
fn f64_of_each_column() {
    let mut q = fixture();
    for (col, expected) in [(BOOL_COL, 1.0f64), (DOUBLE_COL, 1.3), (I32_COL, 1.0), (I64_COL, 0.0), (DATETIME_COL, 1417176009000.0)] {
        let d = get(&mut q, col, TargetKind::Double, 10).unwrap();
        assert_eq!(TransferStatus::Success, d.status);
        assert_eq!(Some(Indicator::Length(8)), d.indicator);
        assert_eq!(expected.to_le_bytes().to_vec(), d.data);
        assert_eq!(TransferStatus::NoData, get(&mut q, col, TargetKind::Double, 10).unwrap().status);
    }
    for (col, kind) in not_numeric() {
        unsupported(get(&mut q, col, TargetKind::Double, 10), kind, TargetKind::Double);
    }
    assert!(matches!(
        get(&mut q, STRING_COL, TargetKind::Double, 10),
        Err(DataError::Conversion(ConversionError::InvalidNumericString { .. }))
    ));
    null_twice(&mut q, NULL_COL, TargetKind::Double);
}

#[test]
fn f32_of_each_column() {
    let mut q = fixture();
    for (col, expected) in [(BOOL_COL, 1.0f32), (DOUBLE_COL, 1.3), (I32_COL, 1.0), (I64_COL, 0.0)] {
        let d = get(&mut q, col, TargetKind::Float, 10).unwrap();
        assert_eq!(Some(Indicator::Length(4)), d.indicator);
        assert_eq!(expected.to_le_bytes().to_vec(), d.data);
    }
    for (col, kind) in not_numeric() {
        unsupported(get(&mut q, col, TargetKind::Float, 10), kind, TargetKind::Float);
    }
    null_twice(&mut q, UNDEFINED_COL, TargetKind::Float);
}

fn u16s(v: &[u16]) -> Vec<u8> {
    v.iter().flat_map(|x| x.to_le_bytes()).collect()
}

#[test]
fn timestamp_of_each_column() {
    let mut q = fixture();
    let d = get(&mut q, DATETIME_COL, TargetKind::Timestamp, 40).unwrap();
    assert_eq!(TransferStatus::Success, d.status);
    assert_eq!(Some(Indicator::Length(16)), d.indicator);
    let mut expected = u16s(&[2014, 11, 28, 12, 0, 9]);
    expected.extend_from_slice(&0u32.to_le_bytes());
    assert_eq!(expected, d.data);
    assert_eq!(TransferStatus::NoData, get(&mut q, DATETIME_COL, TargetKind::Timestamp, 40).unwrap().status);
    for (col, kind) in not_numeric() {
        unsupported(get(&mut q, col, TargetKind::Timestamp, 40), kind, TargetKind::Timestamp);
    }
    for (col, kind) in [
        (BOOL_COL, TypeName::Bool),
        (DOUBLE_COL, TypeName::Double),
        (I32_COL, TypeName::Int),
        (I64_COL, TypeName::Long),
        (STRING_COL, TypeName::String),
    ] {
        unsupported(get(&mut q, col, TargetKind::Timestamp, 40), kind, TargetKind::Timestamp);
    }
    null_twice(&mut q, NULL_COL, TargetKind::Timestamp);
}

#[test]
fn date_of_each_column() {
    let mut q = fixture();
    let d = get(&mut q, DATETIME_COL, TargetKind::Date, 40).unwrap();
    assert_eq!(TransferStatus::SuccessWithInfo, d.status);
    assert_eq!(Some(Notice::PrecisionLoss(Loss::TimeOfDay)), d.notice);
    assert_eq!(Some(Indicator::Length(6)), d.indicator);
    assert_eq!(u16s(&[2014, 11, 28]), d.data);
    unsupported(get(&mut q, STRING_COL, TargetKind::Date, 40), TypeName::String, TargetKind::Date);
    unsupported(get(&mut q, BOOL_COL, TargetKind::Date, 40), TypeName::Bool, TargetKind::Date);
    null_twice(&mut q, UNDEFINED_COL, TargetKind::Date);
}

#[test]
fn time_of_each_column() {
    let mut q = fixture();
    let d = get(&mut q, DATETIME_COL, TargetKind::Time, 40).unwrap();
    assert_eq!(TransferStatus::Success, d.status);
    assert_eq!(Some(Indicator::Length(6)), d.indicator);
    assert_eq!(u16s(&[12, 0, 9]), d.data);
    unsupported(get(&mut q, I64_COL, TargetKind::Time, 40), TypeName::Long, TargetKind::Time);
    null_twice(&mut q, NULL_COL, TargetKind::Time);
}

#[test]
fn fixed_value_needs_room() {
    let mut q = fixture();
    match get(&mut q, I64_COL, TargetKind::SBigInt, 4) {
        Err(DataError::Write(mongo_odbc::transfer::WriteError::BufferTooSmall { needed, capacity })) => {
            assert_eq!(8, needed);
            assert_eq!(4, capacity);
        }
        other => panic!("expected a buffer that is too small, got {:?}", other),
    }
    let d = get(&mut q, I64_COL, TargetKind::SBigInt, 8).unwrap();
    assert_eq!(TransferStatus::Success, d.status);
}

#[test]
fn no_buffer_reports_length_only() {
    let mut q = fixture();
    let none = Destination { capacity: None, has_indicator: true };
    let d = q.get_data(STRING_COL, TargetKind::Char, none, encode).unwrap();
    assert_eq!(TransferStatus::SuccessWithInfo, d.status);
    assert_eq!(Some(Indicator::Length(12)), d.indicator);
    assert!(d.data.is_empty());
    let d = q.get_data(I32_COL, TargetKind::SLong, none, encode).unwrap();
    assert_eq!(Some(Indicator::Length(4)), d.indicator);
    let d = get(&mut q, STRING_COL, TargetKind::Char, 0).unwrap();
    assert_eq!(TransferStatus::SuccessWithInfo, d.status);
    assert_eq!(Some(Indicator::Length(12)), d.indicator);
    let d = get(&mut q, STRING_COL, TargetKind::Char, 100).unwrap();
    assert_eq!("hello world!", narrow(&d));
}

#[test]
fn equal_keys_read_the_first() {
    let rows: Vec<Row> = vec![vec![(
        s("a"),
        DocumentValue::Document(vec![(s("b"), DocumentValue::Int32(1)), (s("b"), DocumentValue::Int32(2))]),
    )]];
    let md = vec![ColumnMetadata::new(s("a"), s("b"), Schema::Scalar(TypeName::Int), false)];
    let mut q = MongoQuery::new(rows, md);
    assert!(q.next());
    assert!(matches!(q.get_value(1), Ok(Some(DocumentValue::Int32(1)))));
}
