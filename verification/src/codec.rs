use crate::error::PipelineError;
use crate::json::{JVal, JsonValue};
use vstd::prelude::*;

verus! {

/// What serde_json's parser yields for a given input text: the model of
/// the resulting tree, or nothing when the text is not valid JSON.
pub uninterp spec fn parsed_json(s: Seq<char>) -> Option<JVal>;

/// What serde_json's serializer emits for a tree with the given model.
pub uninterp spec fn encoded_json(v: JVal) -> Seq<char>;

#[verifier::external_type_specification]
#[verifier::external_body]
pub struct ExSerdeValue(serde_json::Value);

/// Relies on serde_json::Value's variants: converts each into the
/// library's value, one arm per variant, a number becoming its canonical
/// decimal text. Serves `parse_json`, which states the contract for the
/// whole parse.
#[verifier::external_body]
fn value_to_json(v: &serde_json::Value) -> JsonValue {
    match v {
        serde_json::Value::Null => JsonValue::Null,
        serde_json::Value::Bool(b) => JsonValue::Bool(*b),
        serde_json::Value::Number(n) => JsonValue::Number(n.to_string()),
        serde_json::Value::String(s) => JsonValue::Text(s.clone()),
        serde_json::Value::Array(a) => JsonValue::Array(a.iter().map(value_to_json).collect()),
        serde_json::Value::Object(m) => JsonValue::Object(
            m.iter().map(|(k, w)| (k.clone(), value_to_json(w))).collect(),
        ),
    }
}

/// Relies on serde_json::Number's text parsing and serde_json::Value's
/// variants: rebuilds a serde_json tree of the same shape, one arm per
/// variant; a number whose text serde_json does not accept becomes null.
/// Serves `to_json_text`, which states the contract for the whole
/// serialization.
#[verifier::external_body]
fn json_to_value(v: &JsonValue) -> serde_json::Value {
    match v {
        JsonValue::Null => serde_json::Value::Null,
        JsonValue::Bool(b) => serde_json::Value::Bool(*b),
        JsonValue::Number(s) => match s.parse::<serde_json::Number>() {
            Ok(n) => serde_json::Value::Number(n),
            Err(_) => serde_json::Value::Null,
        },
        JsonValue::Text(s) => serde_json::Value::String(s.clone()),
        JsonValue::Array(items) => serde_json::Value::Array(
            items.iter().map(json_to_value).collect(),
        ),
        JsonValue::Object(entries) => serde_json::Value::Object(
            entries.iter().map(|(k, w)| (k.clone(), json_to_value(w))).collect(),
        ),
    }
}

/// Relies on serde_json::from_str: whether a text parses, and to what
/// tree, depends on its characters alone; a parse error is returned as
/// its message text.
#[verifier::external_body]
fn parse_json(s: &str) -> (r: Result<JsonValue, String>)
    ensures
        match r {
            Ok(v) => parsed_json(s@) == Some(v@),
            Err(_) => parsed_json(s@) is None,
        },
{
    match serde_json::from_str::<serde_json::Value>(s) {
        Ok(v) => Ok(value_to_json(&v)),
        Err(e) => Err(e.to_string()),
    }
}

/// Relies on serde_json::to_string: the compact serialization of a tree
/// depends only on the tree, here given by the value's model.
#[verifier::external_body]
fn serialize_json(v: &JsonValue) -> (r: String)
    ensures
        r@ == encoded_json(v@),
{
    let tree = json_to_value(v);
    match serde_json::to_string(&tree) {
        Ok(text) => text,
        Err(_) => std::string::String::new(),
    }
}

/// The Encoder stage: the compact JSON text of a value.
pub fn to_json_text(v: &JsonValue) -> (r: String)
    ensures
        r@ == encoded_json(v@),
{
    serialize_json(v)
}

/// The Decoder stage: parse the whole input text into a value, or fail
/// with the decode error.
pub fn decode(input: &str) -> (r: Result<JsonValue, PipelineError>)
    ensures
        match r {
            Ok(v) => parsed_json(input@) == Some(v@),
            Err(e) => parsed_json(input@) is None && e matches PipelineError::DecodeError(_),
        },
{
    match parse_json(input) {
        Ok(v) => Ok(v),
        Err(m) => Err(PipelineError::DecodeError(m)),
    }
}

} // verus!
