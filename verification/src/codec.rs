//! The trusted boundary to the outside JSON parser and serializer.
//!
//! The rest of the library works only on [`JsonValue`]; these wrappers call
//! serde_json and convert between its value type and ours, one variant per
//! arm. The parse and the serialization are functions of their arguments
//! alone, so each carries a name — [`spec_parse_json`],
//! [`spec_parse_json_bytes`], [`spec_json_text`] — that the callers'
//! contracts are stated over; every function that acts on a parsed value
//! also takes it as an argument and carries its own exact contract.

use vstd::prelude::*;
use crate::json::JsonValue;

verus! {

#[verifier::external_type_specification]
#[verifier::external_body]
pub struct ExValue(serde_json::Value);

/// The value that parsing a piece of text yields, when it is well-formed
/// JSON.
pub uninterp spec fn spec_parse_json(text: Seq<char>) -> Option<JsonValue>;

/// The value that parsing a byte sequence yields, when it is well-formed
/// JSON.
pub uninterp spec fn spec_parse_json_bytes(bytes: Seq<u8>) -> Option<JsonValue>;

/// The text a JSON value serializes to.
pub uninterp spec fn spec_json_text(v: JsonValue) -> Seq<char>;

/// Relies on serde_json::Value: converts one variant per arm, moving fields.
/// A number that is not a signed 64-bit integer is carried as its literal
/// text, so it serializes back unchanged.
#[verifier::external_body]
fn json_of_value(v: serde_json::Value) -> JsonValue {
    match v {
        serde_json::Value::Null => JsonValue::Null,
        serde_json::Value::Bool(b) => JsonValue::Bool(b),
        serde_json::Value::Number(n) => match n.as_i64() {
            Some(i) => JsonValue::Int(i),
            None => JsonValue::Num(n.to_string()),
        },
        serde_json::Value::String(s) => JsonValue::Str(s),
        serde_json::Value::Array(a) => JsonValue::Arr(a.into_iter().map(json_of_value).collect()),
        serde_json::Value::Object(o) => JsonValue::Obj(
            o.into_iter().map(|p| (p.0, json_of_value(p.1))).collect(),
        ),
    }
}

/// Relies on serde_json::Value's constructors: one variant per arm.
#[verifier::external_body]
fn value_of_json(v: &JsonValue) -> serde_json::Value {
    match v {
        JsonValue::Null => serde_json::Value::Null,
        JsonValue::Bool(b) => serde_json::Value::Bool(*b),
        JsonValue::Int(n) => serde_json::Value::Number(serde_json::Number::from(*n)),
        JsonValue::Num(s) => match s.parse::<serde_json::Number>() {
            Ok(n) => serde_json::Value::Number(n),
            Err(_) => serde_json::Value::Null,
        },
        JsonValue::Str(s) => serde_json::Value::String(s.clone()),
        JsonValue::Arr(a) => serde_json::Value::Array(a.iter().map(value_of_json).collect()),
        JsonValue::Obj(o) => serde_json::Value::Object(
            o.iter().map(|p| (p.0.clone(), value_of_json(&p.1))).collect(),
        ),
    }
}

/// Relies on serde_json::from_str: yields a value exactly when the text is
/// well-formed JSON. The result depends on the text alone and is named
/// [`spec_parse_json`]; what is done with it is stated by the functions
/// that take the parsed value as an argument.
#[verifier::external_body]
pub(crate) fn parse_json_text(text: &str) -> (r: Option<JsonValue>)
    ensures
        r == spec_parse_json(text@),
{
    match serde_json::from_str::<serde_json::Value>(text) {
        Ok(v) => Some(json_of_value(v)),
        Err(_) => None,
    }
}

/// Relies on serde_json::from_slice: the byte-slice form of the same
/// parser, named [`spec_parse_json_bytes`].
#[verifier::external_body]
pub(crate) fn parse_json_bytes(bytes: &[u8]) -> (r: Option<JsonValue>)
    ensures
        r == spec_parse_json_bytes(bytes@),
{
    match serde_json::from_slice::<serde_json::Value>(bytes) {
        Ok(v) => Some(json_of_value(v)),
        Err(_) => None,
    }
}

/// Relies on serde_json::to_string: serializing a tree of plain JSON values
/// cannot fail, so the error arm is unreachable and yields an empty string.
/// The text depends on the value alone and is named [`spec_json_text`].
#[verifier::external_body]
pub(crate) fn json_to_text(v: &JsonValue) -> (r: String)
    ensures
        r@ == spec_json_text(*v),
{
    match serde_json::to_string(&value_of_json(v)) {
        Ok(s) => s,
        Err(_) => String::new(),
    }
}

} // verus!
