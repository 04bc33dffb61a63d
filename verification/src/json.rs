//! JSON documents as the engine reads them.
//!
//! Parsing is `serde_json`'s. A parsed document stays a `serde_json::Value`;
//! the functions here read it, and say what they return over [`Json`], the
//! mathematical tree that the value stands for.

use vstd::prelude::*;

verus! {

/// A JSON document as a mathematical value.
///
/// A number is held as the bit pattern of the IEEE 754 double that
/// `serde_json` reads it as: the engine stores and forwards numbers and
/// never computes with them.
pub enum Json {
    Null,
    Bool(bool),
    Number(u64),
    Text(Seq<char>),
    List(Seq<Json>),
    Object(Map<Seq<char>, Json>),
}

/// `serde_json::Value`: a parsed JSON document, opaque here.
#[verifier::external_type_specification]
#[verifier::external_body]
pub struct ExValue(serde_json::Value);

/// The document that a `serde_json::Value` holds.
pub uninterp spec fn json_of(value: serde_json::Value) -> Json;

/// What `serde_json::from_str` makes of a text: the document, or `None` where
/// the text is not one JSON document.
pub uninterp spec fn parsed_json(text: Seq<char>) -> Option<Json>;

/// `serde_json::from_str` at the type `serde_json::Value`: the parsed
/// document, or `None` on any error. The contract gives the outcome the name
/// [`parsed_json`], since it depends on the text alone.
#[verifier::external_body]
pub(crate) fn parse_value(text: &str) -> (r: Option<serde_json::Value>)
    ensures
        match r {
            Some(value) => parsed_json(text@) == Some(json_of(value)),
            None => parsed_json(text@).is_none(),
        },
{
    serde_json::from_str::<serde_json::Value>(text).ok()
}

/// `Value::get` with a text key: the member under `key` where the value is an
/// object that has one, else `None`.
#[verifier::external_body]
pub(crate) fn value_member<'a>(value: &'a serde_json::Value, key: &str) -> (r: Option<
    &'a serde_json::Value,
>)
    ensures
        match r {
            Some(member) => json_of(*value) matches Json::Object(members)
                && members.contains_key(key@) && members[key@] == json_of(*member),
            None => json_of(*value) matches Json::Object(members) ==> !members.contains_key(
                key@,
            ),
        },
{
    value.get(key)
}

/// `Value::as_str`: the text where the value is a string, else `None`.
#[verifier::external_body]
pub(crate) fn value_text<'a>(value: &'a serde_json::Value) -> (r: Option<&'a str>)
    ensures
        match r {
            Some(text) => json_of(*value) == Json::Text(text@),
            None => !(json_of(*value) is Text),
        },
{
    value.as_str()
}

/// `Value::as_array`: the items where the value is an array, else `None`.
#[verifier::external_body]
pub(crate) fn value_items<'a>(value: &'a serde_json::Value) -> (r: Option<
    &'a Vec<serde_json::Value>,
>)
    ensures
        match r {
            Some(items) => json_of(*value) matches Json::List(list) && list.len() == items.len()
                && forall|i: int| 0 <= i < items.len() ==> list[i] == json_of(#[trigger] items[i]),
            None => !(json_of(*value) is List),
        },
{
    value.as_array()
}

/// `Value::is_null`.
#[verifier::external_body]
pub(crate) fn value_is_null(value: &serde_json::Value) -> (r: bool)
    ensures
        r == (json_of(*value) is Null),
{
    value.is_null()
}

/// `Value::as_f64`, handed on as the double's bit pattern: the number where
/// the value is a number, else `None`. This is `serde_json` with its default
/// features, under which every number has a double.
#[verifier::external_body]
pub(crate) fn value_number(value: &serde_json::Value) -> (r: Option<u64>)
    ensures
        match r {
            Some(bits) => json_of(*value) == Json::Number(bits),
            None => !(json_of(*value) is Number),
        },
{
    value.as_f64().map(|number| number.to_bits())
}

/// The member of an object under `key`; `None` where the document is no
/// object or has no such member.
pub open spec fn member(document: Json, key: Seq<char>) -> Option<Json> {
    match document {
        Json::Object(members) => if members.contains_key(key) {
            Some(members[key])
        } else {
            None
        },
        _ => None,
    }
}

/// The text under `key`, for a member that must be there and be a string.
pub open spec fn required_text(document: Json, key: Seq<char>) -> Option<Seq<char>> {
    match member(document, key) {
        Some(Json::Text(text)) => Some(text),
        _ => None,
    }
}

/// The number under `key`, for a member that must be there and be a number.
pub open spec fn required_number(document: Json, key: Seq<char>) -> Option<u64> {
    match member(document, key) {
        Some(Json::Number(bits)) => Some(bits),
        _ => None,
    }
}

/// The number under `key`, for a member that may be absent and then counts as
/// zero (whose bit pattern is 0). A member that is there and is no number is
/// an error: `None`.
pub open spec fn optional_number(document: Json, key: Seq<char>) -> Option<u64> {
    match member(document, key) {
        Some(Json::Number(bits)) => Some(bits),
        Some(_) => None,
        None => Some(0),
    }
}

/// Reads the string member `key` of `value`.
pub(crate) fn read_text(value: &serde_json::Value, key: &str) -> (r: Option<String>)
    ensures
        match r {
            Some(text) => required_text(json_of(*value), key@) == Some(text@),
            None => required_text(json_of(*value), key@).is_none(),
        },
{
    match value_member(value, key) {
        Some(found) => match value_text(found) {
            Some(text) => Some(String::from_str(text)),
            None => None,
        },
        None => None,
    }
}

/// Reads the number member `key` of `value`.
pub(crate) fn read_number(value: &serde_json::Value, key: &str) -> (r: Option<u64>)
    ensures
        r == required_number(json_of(*value), key@),
{
    match value_member(value, key) {
        Some(found) => value_number(found),
        None => None,
    }
}

/// Reads the number member `key` of the object `value`, zero where it is absent.
pub(crate) fn read_optional_number(value: &serde_json::Value, key: &str) -> (r: Option<u64>)
    requires
        json_of(*value) is Object,
    ensures
        r == optional_number(json_of(*value), key@),
{
    match value_member(value, key) {
        Some(found) => value_number(found),
        None => Some(0),
    }
}

} // verus!
