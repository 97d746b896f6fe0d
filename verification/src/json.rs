//! JSON values, as the chat server sends them.
//!
//! The values themselves are `serde_json::Value`. What one holds is described
//! by `Json`, and the functions below are the only way in which the rest of
//! the library looks into one.

use serde_json::Value;
use vstd::prelude::*;

verus! {

/// `serde_json::Value`, taken as it is: nothing of its inside is used but
/// through the functions of this module.
#[verifier::external_type_specification]
#[verifier::external_body]
pub struct ExValue(serde_json::Value);

/// What a JSON value holds.
pub enum Json {
    /// `null`.
    Null,
    /// `true` or `false`.
    Bool(bool),
    /// A number written as an integer.
    Integer(int),
    /// Any other number.
    Fraction,
    /// A string.
    Text(Seq<char>),
    /// An array, with its items in order.
    Array(Seq<Json>),
    /// An object, with its members by key.
    Object(Map<Seq<char>, Json>),
}

/// What `value` holds.
pub uninterp spec fn json_of(value: Value) -> Json;

impl Json {
    /// The member under `key`, where this is an object that has one.
    pub open spec fn member(self, key: Seq<char>) -> Option<Json> {
        match self {
            Json::Object(members) if members.contains_key(key) => Some(members[key]),
            _ => None,
        }
    }

    /// The text, where this is a string.
    pub open spec fn text(self) -> Option<Seq<char>> {
        match self {
            Json::Text(text) => Some(text),
            _ => None,
        }
    }

    /// The number, where this is an integer that fits in 64 bits with a sign.
    pub open spec fn integer(self) -> Option<i64> {
        match self {
            Json::Integer(n) if i64::MIN <= n <= i64::MAX => Some(n as i64),
            _ => None,
        }
    }

    /// The items, where this is an array.
    pub open spec fn items(self) -> Option<Seq<Json>> {
        match self {
            Json::Array(items) => Some(items),
            _ => None,
        }
    }
}

/// What each of `values` holds, in order.
pub open spec fn jsons_of(values: Seq<Value>) -> Seq<Json> {
    values.map_values(|value: Value| json_of(value))
}

/// Calls `Value::get` with a string key.
///
/// Trusted: the member under `key` comes back where `value` is an object
/// that has one, and nothing otherwise.
#[verifier::external_body]
pub(crate) fn get<'a>(value: &'a Value, key: &str) -> (member: Option<&'a Value>)
    ensures
        member is Some <==> json_of(*value).member(key@) is Some,
        member matches Some(found) ==> json_of(*value).member(key@) == Some(json_of(*found)),
{
    value.get(key)
}

/// Calls `Value::as_str`.
///
/// Trusted: the text comes back where `value` is a string, and nothing
/// otherwise.
#[verifier::external_body]
pub(crate) fn as_str<'a>(value: &'a Value) -> (text: Option<&'a str>)
    ensures
        text is Some <==> json_of(*value).text() is Some,
        text matches Some(found) ==> json_of(*value).text() == Some(found@),
{
    value.as_str()
}

/// Calls `Value::as_i64`.
///
/// Trusted: the number comes back where `value` is an integer that fits in
/// an `i64`, and nothing otherwise.
#[verifier::external_body]
pub(crate) fn as_i64(value: &Value) -> (number: Option<i64>)
    ensures
        number == json_of(*value).integer(),
{
    value.as_i64()
}

/// Calls `Value::as_array`.
///
/// Trusted: the items come back where `value` is an array, and nothing
/// otherwise.
#[verifier::external_body]
pub(crate) fn as_array<'a>(value: &'a Value) -> (items: Option<&'a Vec<Value>>)
    ensures
        items is Some <==> json_of(*value).items() is Some,
        items matches Some(found) ==> json_of(*value).items() == Some(jsons_of(found@)),
{
    value.as_array()
}

} // verus!
