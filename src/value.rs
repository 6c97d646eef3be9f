//! The document value model: a closed sum over the BSON value kinds.
use vstd::prelude::*;

verus! {

/// A 64-bit floating-point value, held without floating-point arithmetic:
/// `bits` is its IEEE-754 binary64 encoding and `text` its shortest decimal
/// rendering (`1.3`, `2.0`, `-0.0`, `Infinity`, `NaN`), as the code that
/// builds the value wrote it.
#[derive(Clone, Debug)]
pub struct DoubleValue {
    pub bits: u64,
    pub text: String,
}

/// A binary value with its subtype tag.
#[derive(Clone, Debug)]
pub struct BinaryValue {
    pub subtype: u8,
    pub bytes: Vec<u8>,
}

/// The subtype tag of a binary value that holds a UUID.
pub const UUID_SUBTYPE: u8 = 4;

/// One value of a document.
#[derive(Debug)]
pub enum DocumentValue {
    Null,
    Undefined,
    Boolean(bool),
    Int32(i32),
    Int64(i64),
    Double(DoubleValue),
    /// The 16 bytes of an IEEE-754 decimal128 value, little-endian.
    Decimal128([u8; 16]),
    String(String),
    Binary(BinaryValue),
    ObjectId([u8; 12]),
    /// Milliseconds since the Unix epoch, UTC.
    DateTime(i64),
    Array(Vec<DocumentValue>),
    Document(Vec<(String, DocumentValue)>),
    RegularExpression { pattern: String, options: String },
    JavaScriptCode(String),
    JavaScriptCodeWithScope { code: String, scope: Vec<(String, DocumentValue)> },
    Timestamp { time: u32, increment: u32 },
    Symbol(String),
    MinKey,
    MaxKey,
    DbPointer { namespace: String, id: [u8; 12] },
}

/// The kind of a document value, named as BSON names its types.
#[derive(Clone, Copy, Debug, PartialEq, Eq, Structural)]
pub enum TypeName {
    Null,
    Undefined,
    Bool,
    Int,
    Long,
    Double,
    Decimal,
    String,
    BinData,
    ObjectId,
    Date,
    Array,
    Object,
    Regex,
    Javascript,
    JavascriptWithScope,
    Timestamp,
    Symbol,
    MinKey,
    MaxKey,
    DbPointer,
}

impl DocumentValue {
    /// The kind of this value.
    pub open spec fn kind(&self) -> TypeName {
        match self {
            DocumentValue::Null => TypeName::Null,
            DocumentValue::Undefined => TypeName::Undefined,
            DocumentValue::Boolean(_) => TypeName::Bool,
            DocumentValue::Int32(_) => TypeName::Int,
            DocumentValue::Int64(_) => TypeName::Long,
            DocumentValue::Double(_) => TypeName::Double,
            DocumentValue::Decimal128(_) => TypeName::Decimal,
            DocumentValue::String(_) => TypeName::String,
            DocumentValue::Binary(_) => TypeName::BinData,
            DocumentValue::ObjectId(_) => TypeName::ObjectId,
            DocumentValue::DateTime(_) => TypeName::Date,
            DocumentValue::Array(_) => TypeName::Array,
            DocumentValue::Document(_) => TypeName::Object,
            DocumentValue::RegularExpression { .. } => TypeName::Regex,
            DocumentValue::JavaScriptCode(_) => TypeName::Javascript,
            DocumentValue::JavaScriptCodeWithScope { .. } => TypeName::JavascriptWithScope,
            DocumentValue::Timestamp { .. } => TypeName::Timestamp,
            DocumentValue::Symbol(_) => TypeName::Symbol,
            DocumentValue::MinKey => TypeName::MinKey,
            DocumentValue::MaxKey => TypeName::MaxKey,
            DocumentValue::DbPointer { .. } => TypeName::DbPointer,
        }
    }

    /// The kind of this value.
    pub fn kind_name(&self) -> (r: TypeName)
        ensures
            r == self.kind(),
    {
        match self {
            DocumentValue::Null => TypeName::Null,
            DocumentValue::Undefined => TypeName::Undefined,
            DocumentValue::Boolean(_) => TypeName::Bool,
            DocumentValue::Int32(_) => TypeName::Int,
            DocumentValue::Int64(_) => TypeName::Long,
            DocumentValue::Double(_) => TypeName::Double,
            DocumentValue::Decimal128(_) => TypeName::Decimal,
            DocumentValue::String(_) => TypeName::String,
            DocumentValue::Binary(_) => TypeName::BinData,
            DocumentValue::ObjectId(_) => TypeName::ObjectId,
            DocumentValue::DateTime(_) => TypeName::Date,
            DocumentValue::Array(_) => TypeName::Array,
            DocumentValue::Document(_) => TypeName::Object,
            DocumentValue::RegularExpression { .. } => TypeName::Regex,
            DocumentValue::JavaScriptCode(_) => TypeName::Javascript,
            DocumentValue::JavaScriptCodeWithScope { .. } => TypeName::JavascriptWithScope,
            DocumentValue::Timestamp { .. } => TypeName::Timestamp,
            DocumentValue::Symbol(_) => TypeName::Symbol,
            DocumentValue::MinKey => TypeName::MinKey,
            DocumentValue::MaxKey => TypeName::MaxKey,
            DocumentValue::DbPointer { .. } => TypeName::DbPointer,
        }
    }

    /// Null and undefined values stand for a missing value in every target but text.
    pub open spec fn is_null_like(&self) -> bool {
        self is Null || self is Undefined
    }
}

/// The first value stored under `key` in a document's fields.
pub open spec fn field_of(fields: Seq<(String, DocumentValue)>, key: Seq<char>) -> Option<DocumentValue>
    decreases fields.len(),
{
    if fields.len() == 0 {
        None
    } else if fields[0].0@ == key {
        Some(fields[0].1)
    } else {
        field_of(fields.drop_first(), key)
    }
}

/// Whether two strings hold the same characters.
pub fn str_eq(a: &str, b: &str) -> (r: bool)
    ensures
        r == (a@ == b@),
{
    let n = a.unicode_len();
    if n != b.unicode_len() {
        return false;
    }
    let mut i: usize = 0;
    while i < n
        invariant
            n == a@.len(),
            n == b@.len(),
            i <= n,
            a@.subrange(0, i as int) == b@.subrange(0, i as int),
        decreases n - i,
    {
        if a.get_char(i) != b.get_char(i) {
            return false;
        }
        assert(a@.subrange(0, i + 1) == a@.subrange(0, i as int).push(a@[i as int]));
        assert(b@.subrange(0, i + 1) == b@.subrange(0, i as int).push(b@[i as int]));
        i = i + 1;
    }
    assert(a@.subrange(0, n as int) == a@);
    assert(b@.subrange(0, n as int) == b@);
    true
}

/// The first value stored under `key` among `fields`, if any.
pub fn get_field<'a>(fields: &'a Vec<(String, DocumentValue)>, key: &str) -> (r: Option<&'a DocumentValue>)
    ensures
        r matches Some(v) ==> field_of(fields@, key@) == Some(*v),
        r is None ==> field_of(fields@, key@) is None,
{
    let mut i: usize = 0;
    assert(fields@.subrange(0, fields@.len() as int) == fields@);
    while i < fields.len()
        invariant
            i <= fields@.len(),
            field_of(fields@, key@) == field_of(fields@.subrange(i as int, fields@.len() as int), key@),
        decreases fields@.len() - i,
    {
        let ghost rest = fields@.subrange(i as int, fields@.len() as int);
        assert(rest.drop_first() == fields@.subrange(i + 1, fields@.len() as int));
        if str_eq(fields[i].0.as_str(), key) {
            return Some(&fields[i].1);
        }
        i = i + 1;
    }
    None
}

} // verus!
