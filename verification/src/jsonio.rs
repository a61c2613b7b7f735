//! Trusted access to JSON documents: parsing, pretty-printing, JSONPath
//! selection, and stringifying. A `serde_json::Value` is opaque here; the
//! engine only carries it between these calls.

use vstd::prelude::*;

verus! {

#[verifier::external_type_specification]
#[verifier::external_body]
pub struct ExValue(serde_json::Value);

/// Relies on serde_json::from_str::<Value>: the parsed document, or the
/// parse error's text.
#[verifier::external_body]
pub fn parse_json(text: &str) -> (r: Result<serde_json::Value, String>) {
    match serde_json::from_str::<serde_json::Value>(text) {
        Ok(v) => Ok(v),
        Err(e) => Err(e.to_string()),
    }
}

/// Relies on serde_json::from_str::<Vec<Value>>: the parsed array items,
/// or the parse error's text.
#[verifier::external_body]
pub fn parse_json_array(text: &str) -> (r: Result<Vec<serde_json::Value>, String>) {
    match serde_json::from_str::<Vec<serde_json::Value>>(text) {
        Ok(v) => Ok(v),
        Err(e) => Err(e.to_string()),
    }
}

/// Relies on jsonpath_lib::select: the values the path selects from the
/// document, in document order, or the path error's text.
#[verifier::external_body]
pub fn select_values(v: &serde_json::Value, path: &str) -> (r: Result<
    Vec<serde_json::Value>,
    String,
>) {
    match jsonpath_lib::select(v, path) {
        Ok(vals) => Ok(vals.into_iter().cloned().collect()),
        Err(e) => Err(e.to_string()),
    }
}

/// Relies on serde_json's Display for Value: the document serialized
/// compactly, strings kept with their quotes.
#[verifier::external_body]
pub fn value_to_string(v: &serde_json::Value) -> (r: String) {
    v.to_string()
}

/// Relies on serde_json::Value::as_str: the character content when the
/// value is a JSON string, and nothing otherwise.
#[verifier::external_body]
pub fn value_as_string(v: &serde_json::Value) -> (r: Option<String>) {
    match v.as_str() {
        Some(s) => Some(s.to_string()),
        None => None,
    }
}

} // verus!
