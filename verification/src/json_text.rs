//! Reading JSON text, through `serde_json`.

use vstd::prelude::*;
use serde_json::Value;
use crate::json::{Json, JsonNumber, JsonView};

verus! {

#[verifier::external_type_specification]
#[verifier::external_body]
pub struct ExJsonValue(Value);

/// The value a JSON text stands for, as `serde_json` reads it (objects with
/// their keys in sorted order, the last of repeated keys counting), or
/// `None` when the text is not JSON.
pub uninterp spec fn json_text_value(text: Seq<char>) -> Option<JsonView>;

/// The library's form of a `serde_json` value, one for one: integers as
/// `PosInt` or `NegInt` as `serde_json` holds them, other numbers by the
/// bits of their `f64`.
#[verifier::external_body]
fn json_of_value(v: Value) -> Json {
    match v {
        Value::Null => Json::Null,
        Value::Bool(b) => Json::Bool(b),
        Value::Number(n) => Json::Number(match (n.as_u64(), n.as_i64()) {
            (Some(u), _) => JsonNumber::PosInt(u),
            (None, Some(i)) => JsonNumber::NegInt(i),
            _ => JsonNumber::Float(n.as_f64().unwrap_or_default().to_bits()),
        }),
        Value::String(s) => Json::String(s),
        Value::Array(a) => Json::Array(a.into_iter().map(json_of_value).collect()),
        Value::Object(m) => Json::Object(m.into_iter().map(|(k, x)| (k, json_of_value(x))).collect()),
    }
}

/// `serde_json::from_str::<Value>`: the value `text` stands for, or the
/// error that reading it met when it is not JSON.
#[verifier::external_body]
pub(crate) fn parse_json_text(text: &str) -> (r: Result<Json, serde_json::Error>)
    ensures
        match r {
            Ok(j) => json_text_value(text@) == Some(j@),
            Err(_) => json_text_value(text@) is None,
        },
{
    serde_json::from_str::<Value>(text).map(json_of_value)
}

} // verus!
