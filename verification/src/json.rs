//! JSON documents, as `serde_json` parses and holds them.
//!
//! Nothing in this file is proved: it states what the rest of the library
//! relies on when it parses a text and walks the resulting value.

use vstd::prelude::*;

verus! {

/// The shape of a JSON value, as far as this library reads it. A number's
/// magnitude is never looked at and is left out.
pub ghost enum JsonTree {
    Null,
    Bool(bool),
    Number,
    Text(Seq<char>),
    Array(Seq<JsonTree>),
    Object(Map<Seq<char>, JsonTree>),
}

/// `serde_json::Value`, a parsed JSON value. The library carries it about and
/// asks it questions through the functions below; it never looks inside.
#[verifier::external_type_specification]
#[verifier::external_body]
pub struct ExJsonValue(serde_json::Value);

/// `serde_json::Error`, the parser's account of why a text is no JSON
/// document.
#[verifier::external_type_specification]
#[verifier::external_body]
pub struct ExJsonError(serde_json::Error);

/// What a `serde_json::Value` holds: its variant, and below an array or an
/// object the elements or members in turn.
pub uninterp spec fn json_tree(value: serde_json::Value) -> JsonTree;

/// What `serde_json::from_str` makes of a text when asked for a
/// `serde_json::Value`: the value's tree, or `None` where it reports an error.
pub uninterp spec fn json_parse(text: Seq<char>) -> Option<JsonTree>;

/// The trees of a sequence of values, in order.
pub open spec fn json_trees(values: Seq<serde_json::Value>) -> Seq<JsonTree> {
    values.map_values(|v: serde_json::Value| json_tree(v))
}

/// `serde_json::from_str::<serde_json::Value>`. The parser reads nothing but
/// the text, so the outcome is a function of the text alone; it is named, not
/// described.
#[verifier::external_body]
pub(crate) fn parse_value(text: &str) -> (r: Result<serde_json::Value, serde_json::Error>)
    ensures
        match r {
            Ok(value) => json_parse(text@) == Some(json_tree(value)),
            Err(_) => json_parse(text@) is None,
        },
{
    serde_json::from_str::<serde_json::Value>(text)
}

/// `serde_json::Value::is_null`: true for `Value::Null` alone.
pub assume_specification[ serde_json::Value::is_null ](value: &serde_json::Value) -> (r: bool)
    ensures
        r == (json_tree(*value) is Null),
;

/// `serde_json::Value::is_object`: true for `Value::Object` alone.
pub assume_specification[ serde_json::Value::is_object ](value: &serde_json::Value) -> (r: bool)
    ensures
        r == (json_tree(*value) is Object),
;

/// `serde_json::Value::as_str`: the text of a `Value::String`, `None` for
/// every other variant.
pub assume_specification<'a>[ serde_json::Value::as_str ](value: &'a serde_json::Value) -> (r:
    Option<&'a str>)
    ensures
        match json_tree(*value) {
            JsonTree::Text(text) => r matches Some(s) && s@ == text,
            _ => r is None,
        },
;

/// `serde_json::Value::as_array`: the elements of a `Value::Array`, `None`
/// for every other variant.
pub assume_specification<'a>[ serde_json::Value::as_array ](value: &'a serde_json::Value) -> (r:
    Option<&'a Vec<serde_json::Value>>)
    ensures
        match json_tree(*value) {
            JsonTree::Array(items) => r matches Some(elements) && json_trees(elements@) == items,
            _ => r is None,
        },
;

/// `serde_json::Value::get` with a string index: the member of a
/// `Value::Object` under that key, `None` where the object has no such key
/// or the value is no object.
#[verifier::external_body]
pub(crate) fn member<'a>(value: &'a serde_json::Value, key: &str) -> (r: Option<
    &'a serde_json::Value,
>)
    ensures
        match json_tree(*value) {
            JsonTree::Object(members) => match r {
                Some(found) => members.contains_key(key@) && json_tree(*found) == members[key@],
                None => !members.contains_key(key@),
            },
            _ => r is None,
        },
{
    value.get(key)
}

/// `ToString::to_string` on a `serde_json::Error`: the parser's message, with
/// the line and column where it gave up. Nothing is claimed of the text.
#[verifier::external_body]
pub(crate) fn error_message(error: &serde_json::Error) -> (r: String) {
    error.to_string()
}

} // verus!
