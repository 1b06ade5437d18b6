//! Reading the JSON settings of a provider.

use serde_json::Value;
use vstd::prelude::*;

verus! {

/// `serde_json::Value`, carried as an opaque value.
#[verifier::external_type_specification]
#[verifier::external_body]
pub struct ExValue(Value);

/// The name of what `serde_json::from_str` returns for a value, where it
/// returns one.
pub uninterp spec fn json_value(json: Seq<char>) -> Option<Value>;

/// `serde_json::from_str`: the value of the JSON text, or none where the text is
/// not JSON. The name `json_value` stands for the outcome.
#[verifier::external_body]
fn parse_json(json: &str) -> (value: Option<Value>)
    ensures
        value == json_value(json@),
{
    serde_json::from_str(json).ok()
}

/// The name of what `Value::pointer` returns.
pub uninterp spec fn value_at(value: Value, pointer: Seq<char>) -> Option<Value>;

/// `Value::pointer`: the value that a JSON pointer leads to, or none where it
/// leads nowhere. The name `value_at` stands for the outcome.
pub assume_specification<'a, 'b>[ Value::pointer ](value: &'a Value, pointer: &'b str) -> (found:
    Option<&'a Value>)
    ensures
        value_at(*value, pointer@) == (match found {
            Some(found) => Some(*found),
            None => None,
        }),
;

/// The name of what `Value::as_str` returns.
pub uninterp spec fn string_of(value: Value) -> Option<Seq<char>>;

/// `Value::as_str`: the text of a value that is a string, or none where it is
/// not one. The name `string_of` stands for the outcome.
pub assume_specification[ Value::as_str ](value: &Value) -> (text: Option<&str>)
    ensures
        string_of(*value) == (match text {
            Some(text) => Some(text@),
            None => None,
        }),
;

/// The string that a pointer leads to in a JSON text. There is none where the
/// text is not JSON, where the pointer leads nowhere, or where what it leads to
/// is not a string.
pub open spec fn json_string_at(json: Seq<char>, pointer: Seq<char>) -> Option<Seq<char>> {
    match json_value(json) {
        Some(value) => match value_at(value, pointer) {
            Some(found) => string_of(found),
            None => None,
        },
        None => None,
    }
}

/// The string that a pointer leads to in a JSON text.
pub(crate) fn read_json_string(json: &str, pointer: &str) -> (found: Option<String>)
    ensures
        found.deep_view() == json_string_at(json@, pointer@),
{
    match parse_json(json) {
        Some(value) => match value.pointer(pointer) {
            Some(found) => match found.as_str() {
                Some(text) => Some(text.to_string()),
                None => None,
            },
            None => None,
        },
        None => None,
    }
}

} // verus!
