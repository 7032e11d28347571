//! Reading the text of an index document, done by `serde_json`.

use vstd::prelude::*;
use serde_json::Value;
use crate::collector::index::Json;
use crate::error::{BridgeError, ErrorView};

verus! {

/// A JSON value as `serde_json` holds it.
#[verifier::external_type_specification]
#[verifier::external_body]
pub struct ExValue(Value);

/// Why a text could not be read as JSON.
#[verifier::external_type_specification]
#[verifier::external_body]
pub struct ExJsonError(serde_json::Error);

/// The value that `serde_json` reads out of `text`; `None` where it rejects
/// the text.
pub uninterp spec fn json_document(text: Seq<char>) -> Option<Json>;

/// What a value of `serde_json` holds, as a [`Json`].
pub uninterp spec fn value_tree(value: Value) -> Json;

/// `serde_json::from_str` for a `Value`: the outcome depends on `text`
/// alone.
#[verifier::external_body]
fn read_value(text: &str) -> (outcome: Result<Value, serde_json::Error>)
    ensures
        match outcome {
            Ok(value) => json_document(text@) == Some(value_tree(value)),
            Err(_) => json_document(text@).is_none(),
        },
{
    serde_json::from_str::<Value>(text)
}

/// Copies a `Value` of `serde_json` into a [`Json`], variant by variant: a
/// number becomes its text, an object its members in the order of the map.
#[verifier::external_body]
fn copy_value(value: &Value) -> (tree: Json)
    ensures
        tree == value_tree(*value),
{
    match value {
        Value::Null => Json::Null,
        Value::Bool(flag) => Json::Bool(*flag),
        Value::Number(number) => Json::Number(number.to_string()),
        Value::String(text) => Json::Text(text.clone()),
        Value::Array(items) => Json::Array(items.iter().map(copy_value).collect()),
        Value::Object(map) => Json::Object(
            map.iter().map(|(key, item)| (key.clone(), copy_value(item))).collect(),
        ),
    }
}

/// The description that `serde_json` gives of a failure.
#[verifier::external_body]
fn describe_json_error(failure: &serde_json::Error) -> (text: String) {
    failure.to_string()
}

/// Whether `e` reports that a text is no JSON.
pub open spec fn reports_bad_json(e: ErrorView) -> bool {
    e matches ErrorView::Parse(detail) && "JSON parse failed: "@.is_prefix_of(detail)
}

/// Reads the text of an index document.
pub fn parse_index(body: &str) -> (outcome: Result<Json, BridgeError>)
    ensures
        match outcome {
            Ok(index) => json_document(body@) == Some(index),
            Err(e) => json_document(body@).is_none() && reports_bad_json(e@),
        },
{
    match read_value(body) {
        Ok(value) => Ok(copy_value(&value)),
        Err(failure) => {
            let mut detail = String::from_str("JSON parse failed: ");
            let ghost prefix = detail@;
            detail.append(describe_json_error(&failure).as_str());
            assert(detail@.subrange(0, prefix.len() as int) == prefix);
            Err(BridgeError::Parse(detail))
        },
    }
}

} // verus!
