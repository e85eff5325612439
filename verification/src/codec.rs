//! Decoding JSON text into the document model. The decoding itself is done
//! by serde_json; what it returns is carried over into the library's own
//! values, and everything after that point is verified against the names
//! stated here.

use vstd::prelude::*;

use crate::error::CaseError;
use crate::json::{JsonRep, JsonValue};

verus! {

#[verifier::external_type_specification]
#[verifier::external_body]
pub struct ExValue(serde_json::Value);

#[verifier::external_type_specification]
#[verifier::external_body]
pub struct ExDecodeError(serde_json::Error);

/// The document that decoding the text `s` yields, as the library's model:
/// `None` exactly where `s` is not JSON. Decoding is a function of the text
/// alone, so the parse of a text has a name.
pub uninterp spec fn decoded_doc(s: Seq<char>) -> Option<JsonRep>;

/// What a decoded `serde_json::Value` holds, as the library's model.
pub uninterp spec fn value_contents(v: serde_json::Value) -> JsonRep;

/// Relies on `serde_json::from_str::<serde_json::Value>`: it accepts exactly
/// the JSON texts, returns the same tree for the same text, and that tree is
/// named `decoded_doc` of the text; what the returned value holds is named
/// `value_contents` of it.
#[verifier::external_body]
fn decode_value(data: &str) -> (r: Result<serde_json::Value, serde_json::Error>)
    ensures
        match r {
            Ok(v) => decoded_doc(data@) == Some(value_contents(v)),
            Err(_) => decoded_doc(data@) is None,
        },
{
    serde_json::from_str::<serde_json::Value>(data)
}

/// Relies on the shape of `serde_json::Value`: rebuilding the decoded tree as
/// the library's own values, variant by variant and in order, yields what the
/// value holds; a number becomes the text `serde_json::Number` displays.
#[verifier::external_body]
fn value_to_json(v: serde_json::Value) -> (r: JsonValue)
    ensures
        r.rep() == value_contents(v),
{
    match v {
        serde_json::Value::Null => JsonValue::Null,
        serde_json::Value::Bool(b) => JsonValue::Bool(b),
        serde_json::Value::Number(n) => JsonValue::Num(n.to_string()),
        serde_json::Value::String(s) => JsonValue::Str(s),
        serde_json::Value::Array(a) => JsonValue::Arr(
            a.into_iter().map(value_to_json).collect(),
        ),
        serde_json::Value::Object(m) => JsonValue::Obj(
            m.into_iter().map(|kv| (kv.0, value_to_json(kv.1))).collect(),
        ),
    }
}

/// Relies on `serde_json::Error::line`: the line of the failure, 1-based.
pub assume_specification[ serde_json::Error::line ](e: &serde_json::Error) -> usize;

/// Relies on `serde_json::Error::column`: the column of the failure, 1-based.
pub assume_specification[ serde_json::Error::column ](e: &serde_json::Error) -> usize;

/// Decode `data` as one JSON document. Succeeds exactly where `data` is JSON
/// text; the error carries the decoder's position.
pub fn parse_json_data(data: &str) -> (r: Result<JsonValue, CaseError>)
    ensures
        match r {
            Ok(v) => decoded_doc(data@) == Some(v.rep()),
            Err(e) => decoded_doc(data@) is None && e matches CaseError::Parse { .. },
        },
{
    match decode_value(data) {
        Ok(v) => Ok(value_to_json(v)),
        Err(e) => Err(
            CaseError::Parse { line: e.line(), column: e.column() },
        ),
    }
}

} // verus!
