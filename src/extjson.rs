//! Canonical extended JSON: the lossless JSON text of a document value.
use vstd::prelude::*;
use crate::text::{
    base64_text, hex_text, int_text, json_string, nat_digits, push_base64, push_hex, push_int_text,
    push_json_chars, push_json_string, push_nat_digits, push_str,
};
use crate::value::DocumentValue;

verus! {

/// The decimal128 string form of a value given by its 16 bytes.
pub uninterp spec fn decimal128_text(bytes: Seq<u8>) -> Seq<char>;

/// Relies on `bson::Decimal128`'s `Display`: the decimal128 string form of
/// the value, which depends on its 16 bytes alone.
#[verifier::external_body]
pub(crate) fn decimal128_chars(bytes: &[u8; 16]) -> (r: Vec<char>)
    ensures
        r@ == decimal128_text(bytes@),
{
    bson::Decimal128::from_bytes(*bytes).to_string().chars().collect()
}

/// `c` inserted into `t` before the first character that is not below it.
pub open spec fn insert_sorted(t: Seq<char>, c: char) -> Seq<char>
    decreases t.len(),
{
    if t.len() == 0 {
        seq![c]
    } else if (c as u32) <= (t[0] as u32) {
        seq![c] + t
    } else {
        seq![t[0]] + insert_sorted(t.drop_first(), c)
    }
}

/// The characters of `s` in ascending order.
pub open spec fn sorted_chars(s: Seq<char>) -> Seq<char>
    decreases s.len(),
{
    if s.len() == 0 {
        seq![]
    } else {
        insert_sorted(sorted_chars(s.drop_last()), s.last())
    }
}

proof fn lemma_insert_at(t: Seq<char>, c: char, p: int)
    requires
        0 <= p <= t.len(),
        forall|j: int| 0 <= j < p ==> (t[j] as u32) < (c as u32),
        p < t.len() ==> (c as u32) <= (t[p] as u32),
    ensures
        insert_sorted(t, c) == t.insert(p, c),
    decreases p,
{
    if p == 0 {
        assert(t.insert(0, c) == seq![c] + t);
    } else {
        let d = t.drop_first();
        assert forall|j: int| 0 <= j < p - 1 implies (d[j] as u32) < (c as u32) by {
            assert(d[j] == t[j + 1]);
        }
        if p - 1 < d.len() {
            assert(d[p - 1] == t[p]);
        }
        lemma_insert_at(d, c, p - 1);
        assert(t.insert(p, c) == seq![t[0]] + d.insert(p - 1, c));
    }
}

/// The characters of `s` in ascending order.
fn sort_chars(s: &str) -> (r: Vec<char>)
    ensures
        r@ == sorted_chars(s@),
{
    let n = s.unicode_len();
    let mut r: Vec<char> = Vec::new();
    let mut i: usize = 0;
    while i < n
        invariant
            n == s@.len(),
            i <= n,
            r@ == sorted_chars(s@.subrange(0, i as int)),
        decreases n - i,
    {
        let c = s.get_char(i);
        let mut p: usize = 0;
        while p < r.len() && (r[p] as u32) < (c as u32)
            invariant
                p <= r@.len(),
                forall|j: int| 0 <= j < p ==> (r@[j] as u32) < (c as u32),
            decreases r@.len() - p,
        {
            p = p + 1;
        }
        proof {
            lemma_insert_at(r@, c, p as int);
            assert(s@.subrange(0, i + 1).drop_last() == s@.subrange(0, i as int));
        }
        r.insert(p, c);
        i = i + 1;
    }
    assert(s@.subrange(0, n as int) == s@);
    r
}

/// The canonical extended JSON text of a value.
pub open spec fn extjson(v: DocumentValue) -> Seq<char>
    decreases v, 0int,
{
    match v {
        DocumentValue::Null => "null"@,
        DocumentValue::Undefined => "{\"$undefined\":true}"@,
        DocumentValue::Boolean(b) => if b {
            "true"@
        } else {
            "false"@
        },
        DocumentValue::Int32(i) => "{\"$numberInt\":\""@ + int_text(i as int) + "\"}"@,
        DocumentValue::Int64(i) => "{\"$numberLong\":\""@ + int_text(i as int) + "\"}"@,
        DocumentValue::Double(d) => "{\"$numberDouble\":\""@ + d.text@ + "\"}"@,
        DocumentValue::Decimal128(b) => "{\"$numberDecimal\":\""@ + decimal128_text(b@) + "\"}"@,
        DocumentValue::String(s) => json_string(s@),
        DocumentValue::Binary(bin) => "{\"$binary\":{\"base64\":\""@ + base64_text(bin.bytes@)
            + "\",\"subType\":\""@ + hex_text(seq![bin.subtype]) + "\"}}"@,
        DocumentValue::ObjectId(id) => "{\"$oid\":\""@ + hex_text(id@) + "\"}"@,
        DocumentValue::DateTime(ms) => "{\"$date\":{\"$numberLong\":\""@ + int_text(ms as int)
            + "\"}}"@,
        DocumentValue::Array(items) => "["@ + items_extjson(items@, items@.len() as int) + "]"@,
        DocumentValue::Document(fields) => "{"@ + fields_extjson(fields@, fields@.len() as int)
            + "}"@,
        DocumentValue::RegularExpression { pattern, options } => "{\"$regularExpression\":{\"pattern\":"@
            + json_string(pattern@) + ",\"options\":"@ + json_string(sorted_chars(options@))
            + "}}"@,
        DocumentValue::JavaScriptCode(code) => "{\"$code\":"@ + json_string(code@) + "}"@,
        DocumentValue::JavaScriptCodeWithScope { code, scope } => "{\"$code\":"@ + json_string(
            code@,
        ) + ",\"$scope\":{"@ + fields_extjson(scope@, scope@.len() as int) + "}}"@,
        DocumentValue::Timestamp { time, increment } => "{\"$timestamp\":{\"t\":"@ + nat_digits(
            time as nat,
        ) + ",\"i\":"@ + nat_digits(increment as nat) + "}}"@,
        DocumentValue::Symbol(s) => "{\"$symbol\":"@ + json_string(s@) + "}"@,
        DocumentValue::MinKey => "{\"$minKey\":1}"@,
        DocumentValue::MaxKey => "{\"$maxKey\":1}"@,
        DocumentValue::DbPointer { namespace, id } => "{\"$dbPointer\":{\"$ref\":"@ + json_string(
            namespace@,
        ) + ",\"$id\":{\"$oid\":\""@ + hex_text(id@) + "\"}}}"@,
    }
}

/// The first `n` items, rendered and separated by commas.
pub open spec fn items_extjson(items: Seq<DocumentValue>, n: int) -> Seq<char>
    decreases items, n,
{
    if n <= 0 || n > items.len() {
        seq![]
    } else if n == 1 {
        extjson(items[0])
    } else {
        items_extjson(items, n - 1) + ","@ + extjson(items[n - 1])
    }
}

/// One member of a JSON object: the quoted key, a colon, the rendered value.
pub open spec fn member_extjson(field: (String, DocumentValue)) -> Seq<char>
    decreases field, 0int,
{
    json_string(field.0@) + ":"@ + extjson(field.1)
}

/// The first `n` fields as JSON object members, separated by commas.
pub open spec fn fields_extjson(fields: Seq<(String, DocumentValue)>, n: int) -> Seq<char>
    decreases fields, n,
{
    if n <= 0 || n > fields.len() {
        seq![]
    } else if n == 1 {
        member_extjson(fields[0])
    } else {
        fields_extjson(fields, n - 1) + ","@ + member_extjson(fields[n - 1])
    }
}

/// Appends the canonical extended JSON text of `v`.
pub fn push_extjson(out: &mut Vec<char>, v: &DocumentValue)
    ensures
        final(out)@ == old(out)@ + extjson(*v),
    decreases *v, 0int,
{
    let ghost start = out@;
    match v {
        DocumentValue::Null => push_str(out, "null"),
        DocumentValue::Undefined => push_str(out, "{\"$undefined\":true}"),
        DocumentValue::Boolean(b) => {
            if *b {
                push_str(out, "true");
            } else {
                push_str(out, "false");
            }
        },
        DocumentValue::Int32(i) => {
            push_str(out, "{\"$numberInt\":\"");
            push_int_text(out, *i as i64);
            push_str(out, "\"}");
        },
        DocumentValue::Int64(i) => {
            push_str(out, "{\"$numberLong\":\"");
            push_int_text(out, *i);
            push_str(out, "\"}");
        },
        DocumentValue::Double(d) => {
            push_str(out, "{\"$numberDouble\":\"");
            push_str(out, d.text.as_str());
            push_str(out, "\"}");
        },
        DocumentValue::Decimal128(b) => {
            push_str(out, "{\"$numberDecimal\":\"");
            let t = decimal128_chars(b);
            push_chars(out, &t);
            push_str(out, "\"}");
        },
        DocumentValue::String(s) => push_json_string(out, s.as_str()),
        DocumentValue::Binary(bin) => {
            push_str(out, "{\"$binary\":{\"base64\":\"");
            push_base64(out, bin.bytes.as_slice());
            push_str(out, "\",\"subType\":\"");
            let tag = [bin.subtype];
            assert(tag@ == seq![bin.subtype]);
            push_hex(out, tag.as_slice());
            push_str(out, "\"}}");
        },
        DocumentValue::ObjectId(id) => {
            push_str(out, "{\"$oid\":\"");
            push_hex(out, id.as_slice());
            push_str(out, "\"}");
        },
        DocumentValue::DateTime(ms) => {
            push_str(out, "{\"$date\":{\"$numberLong\":\"");
            push_int_text(out, *ms);
            push_str(out, "\"}}");
        },
        DocumentValue::Array(items) => {
            push_str(out, "[");
            push_items(out, items);
            push_str(out, "]");
        },
        DocumentValue::Document(fields) => {
            push_str(out, "{");
            push_fields(out, fields);
            push_str(out, "}");
        },
        DocumentValue::RegularExpression { pattern, options } => {
            push_str(out, "{\"$regularExpression\":{\"pattern\":");
            push_json_string(out, pattern.as_str());
            push_str(out, ",\"options\":");
            let sorted = sort_chars(options.as_str());
            push_json_chars(out, &sorted);
            push_str(out, "}}");
        },
        DocumentValue::JavaScriptCode(code) => {
            push_str(out, "{\"$code\":");
            push_json_string(out, code.as_str());
            push_str(out, "}");
        },
        DocumentValue::JavaScriptCodeWithScope { code, scope } => {
            push_str(out, "{\"$code\":");
            push_json_string(out, code.as_str());
            push_str(out, ",\"$scope\":{");
            push_fields(out, scope);
            push_str(out, "}}");
        },
        DocumentValue::Timestamp { time, increment } => {
            push_str(out, "{\"$timestamp\":{\"t\":");
            push_nat_digits(out, *time as u64);
            push_str(out, ",\"i\":");
            push_nat_digits(out, *increment as u64);
            push_str(out, "}}");
        },
        DocumentValue::Symbol(s) => {
            push_str(out, "{\"$symbol\":");
            push_json_string(out, s.as_str());
            push_str(out, "}");
        },
        DocumentValue::MinKey => push_str(out, "{\"$minKey\":1}"),
        DocumentValue::MaxKey => push_str(out, "{\"$maxKey\":1}"),
        DocumentValue::DbPointer { namespace, id } => {
            push_str(out, "{\"$dbPointer\":{\"$ref\":");
            push_json_string(out, namespace.as_str());
            push_str(out, ",\"$id\":{\"$oid\":\"");
            push_hex(out, id.as_slice());
            push_str(out, "\"}}}");
        },
    }
    assert(out@ =~= start + extjson(*v));
}

/// Appends the items of an array, rendered and separated by commas.
fn push_items(out: &mut Vec<char>, items: &Vec<DocumentValue>)
    ensures
        final(out)@ == old(out)@ + items_extjson(items@, items@.len() as int),
    decreases items@, items@.len() + 1,
{
    let mut i: usize = 0;
    while i < items.len()
        invariant
            i <= items@.len(),
            out@ == old(out)@ + items_extjson(items@, i as int),
        decreases items@.len() - i,
    {
        let ghost before = out@;
        if i > 0 {
            push_str(out, ",");
        }
        push_extjson(out, &items[i]);
        proof {
            if i == 0 {
                assert(out@ =~= before + extjson(items@[0]));
            } else {
                assert(out@ =~= before + ","@ + extjson(items@[i as int]));
            }
        }
        i = i + 1;
    }
}

/// Appends the fields of a document as JSON object members, separated by commas.
fn push_fields(out: &mut Vec<char>, fields: &Vec<(String, DocumentValue)>)
    ensures
        final(out)@ == old(out)@ + fields_extjson(fields@, fields@.len() as int),
    decreases fields@, fields@.len() + 1,
{
    let mut i: usize = 0;
    while i < fields.len()
        invariant
            i <= fields@.len(),
            out@ == old(out)@ + fields_extjson(fields@, i as int),
        decreases fields@.len() - i,
    {
        let ghost before = out@;
        if i > 0 {
            push_str(out, ",");
        }
        let ghost mid = out@;
        push_json_string(out, fields[i].0.as_str());
        push_str(out, ":");
        push_extjson(out, &fields[i].1);
        proof {
            assert(out@ =~= mid + member_extjson(fields@[i as int]));
            if i == 0 {
                assert(out@ =~= before + member_extjson(fields@[0]));
            } else {
                assert(out@ =~= before + ","@ + member_extjson(fields@[i as int]));
            }
        }
        i = i + 1;
    }
}

/// Appends the characters of `t`.
fn push_chars(out: &mut Vec<char>, t: &Vec<char>)
    ensures
        final(out)@ == old(out)@ + t@,
{
    let mut i: usize = 0;
    while i < t.len()
        invariant
            i <= t@.len(),
            out@ == old(out)@ + t@.subrange(0, i as int),
        decreases t@.len() - i,
    {
        out.push(t[i]);
        assert(t@.subrange(0, i + 1) == t@.subrange(0, i as int).push(t@[i as int]));
        i = i + 1;
    }
    assert(t@.subrange(0, t@.len() as int) == t@);
}

/// The canonical extended JSON text of `v`.
pub fn extjson_text(v: &DocumentValue) -> (r: Vec<char>)
    ensures
        r@ == extjson(*v),
{
    let mut r: Vec<char> = Vec::new();
    push_extjson(&mut r, v);
    r
}

} // verus!
