//! JSON text in and out, through `serde_json`: the text of one message is
//! parsed into the library's [`JsonValue`], and a response is written back
//! as JSON text. Numbers keep their JSON text, so a value goes through the
//! conversion one for one.

use vstd::prelude::*;
use crate::json::{Json, JsonValue};

verus! {

#[verifier::external_type_specification]
#[verifier::external_body]
pub struct ExSerdeValue(serde_json::Value);

/// The value that `serde_json::from_str` parses from `text`, in the
/// library's model; `None` when `text` is not one JSON value.
pub uninterp spec fn parsed_json(text: Seq<char>) -> Option<Json>;

/// The message of the error `serde_json::from_str` gives for `text`.
pub uninterp spec fn parse_error_message(text: Seq<char>) -> Seq<char>;

/// The JSON text that `serde_json::to_string` writes for `value`.
pub uninterp spec fn json_text(value: Json) -> Seq<char>;

/// The library's value for a parsed `serde_json::Value`, variant for
/// variant; a number becomes its JSON text.
#[verifier::external_body]
fn value_from_serde(value: &serde_json::Value) -> JsonValue {
    match value {
        serde_json::Value::Null => JsonValue::Null,
        serde_json::Value::Bool(b) => JsonValue::Bool(*b),
        serde_json::Value::Number(n) => JsonValue::Number(n.to_string()),
        serde_json::Value::String(s) => JsonValue::Str(s.clone()),
        serde_json::Value::Array(items) => JsonValue::Array(items.iter().map(value_from_serde).collect()),
        serde_json::Value::Object(members) => JsonValue::Object(
            members.iter().map(|(k, v)| (k.clone(), value_from_serde(v))).collect(),
        ),
    }
}

/// The `serde_json::Value` for a library value, variant for variant; a
/// number's text is read back by `Number::from_str`.
#[verifier::external_body]
fn value_to_serde(value: &JsonValue) -> serde_json::Value {
    match value {
        JsonValue::Null => serde_json::Value::Null,
        JsonValue::Bool(b) => serde_json::Value::Bool(*b),
        JsonValue::Int(i) => serde_json::Value::Number(serde_json::Number::from(*i)),
        JsonValue::Number(text) => match text.parse::<serde_json::Number>() {
            Ok(n) => serde_json::Value::Number(n),
            Err(_) => serde_json::Value::Null,
        },
        JsonValue::Str(s) => serde_json::Value::String(s.clone()),
        JsonValue::Array(items) => serde_json::Value::Array(items.iter().map(value_to_serde).collect()),
        JsonValue::Object(members) => serde_json::Value::Object(
            members.iter().map(|(k, v)| (k.clone(), value_to_serde(v))).collect(),
        ),
    }
}

/// `serde_json::from_str::<Value>`: the JSON value that `text` holds, in the
/// library's model, or the message of the parse error. What it parses is
/// named (`parsed_json`, `parse_error_message`): a function of `text`
/// alone, not written out here.
#[verifier::external_body]
pub(crate) fn parse_json(text: &str) -> (r: Result<JsonValue, String>)
    ensures
        r is Ok <==> parsed_json(text@) is Some,
        r matches Ok(v) ==> parsed_json(text@) == Some(v@),
        r matches Err(m) ==> m@ == parse_error_message(text@),
{
    match serde_json::from_str::<serde_json::Value>(text) {
        Ok(v) => Ok(value_from_serde(&v)),
        Err(e) => Err(e.to_string()),
    }
}

/// `serde_json::to_string`: the JSON text of `value` (named `json_text`, a
/// function of the value alone). Writing a `Value` to a string does not
/// fail; the error arm is never taken.
#[verifier::external_body]
fn to_json_text(value: &JsonValue) -> (r: String)
    ensures
        r@ == json_text(value@),
{
    match serde_json::to_string(&value_to_serde(value)) {
        Ok(text) => text,
        Err(_) => String::new(),
    }
}

/// The line that carries `response`: its JSON text and a line feed.
pub fn response_line(response: &JsonValue) -> (r: String)
    ensures
        r@ == json_text(response@) + seq!['\n'],
{
    let mut line = to_json_text(response);
    line.append("\n");
    proof {
        reveal_strlit("\n");
    }
    line
}

} // verus!
