//! JSON documents, read through `serde_json`. A parsed document is an opaque
//! `serde_json::Value`; what it holds is named by a model tree, and the
//! accessors below are stated over that model.

use serde_json::Value as JsonValue;
use vstd::prelude::*;

verus! {

/// `serde_json::Value`, carried as an opaque value.
#[verifier::external_type_specification]
#[verifier::external_body]
pub struct ExJsonValue(serde_json::Value);

/// A JSON number, as the three numeric accessors of `serde_json` present it.
pub struct JsonNumber {
    /// The number as an unsigned 64-bit integer, where it is one.
    pub unsigned: Option<u64>,
    /// The number as a signed 64-bit integer, where it is one.
    pub signed: Option<i64>,
    /// The bit pattern of the number as a double.
    pub float_bits: u64,
}

/// What a JSON document holds.
pub enum JsonModel {
    Null,
    Bool(bool),
    Number(JsonNumber),
    String(Seq<char>),
    Array(Seq<JsonModel>),
    Object(Map<Seq<char>, JsonModel>),
}

/// What a parsed `serde_json::Value` holds.
pub uninterp spec fn json_model(v: JsonValue) -> JsonModel;

/// The document that `serde_json` parses from a byte string, if it is JSON.
pub uninterp spec fn json_document(bytes: Seq<u8>) -> Option<JsonModel>;

/// `serde_json::from_slice` at type `Value`: the parsed document, or nothing
/// where the bytes are not one JSON text.
#[verifier::external_body]
pub(crate) fn json_parse(bytes: &[u8]) -> (r: Option<JsonValue>)
    ensures
        match r {
            Some(v) => json_document(bytes@) == Some(json_model(v)),
            None => json_document(bytes@) is None,
        },
{
    serde_json::from_slice(bytes).ok()
}

/// `Value::get` with a string key: the member of that name where the value
/// is an object that has one, nothing otherwise.
#[verifier::external_body]
pub(crate) fn json_get<'a>(v: &'a JsonValue, key: &str) -> (r: Option<&'a JsonValue>)
    ensures
        match json_model(*v) {
            JsonModel::Object(members) => if members.contains_key(key@) {
                r matches Some(member) && json_model(*member) == members[key@]
            } else {
                r is None
            },
            _ => r is None,
        },
{
    v.get(key)
}

/// `Value::as_str`: the text of a JSON string, nothing for other values.
#[verifier::external_body]
pub(crate) fn json_as_str<'a>(v: &'a JsonValue) -> (r: Option<&'a str>)
    ensures
        match json_model(*v) {
            JsonModel::String(text) => r matches Some(s) && s@ == text,
            _ => r is None,
        },
{
    v.as_str()
}

/// `Value::as_u64`: a number that is an unsigned 64-bit integer.
#[verifier::external_body]
pub(crate) fn json_as_u64(v: &JsonValue) -> (r: Option<u64>)
    ensures
        r == match json_model(*v) {
            JsonModel::Number(n) => n.unsigned,
            _ => None,
        },
{
    v.as_u64()
}

/// `Value::as_i64`: a number that is a signed 64-bit integer.
#[verifier::external_body]
pub(crate) fn json_as_i64(v: &JsonValue) -> (r: Option<i64>)
    ensures
        r == match json_model(*v) {
            JsonModel::Number(n) => n.signed,
            _ => None,
        },
{
    v.as_i64()
}

/// `Value::as_f64`, handed out as the double's bit pattern: every number has
/// one, other values have none.
#[verifier::external_body]
pub(crate) fn json_as_float_bits(v: &JsonValue) -> (r: Option<u64>)
    ensures
        r == match json_model(*v) {
            JsonModel::Number(n) => Some(n.float_bits),
            _ => None,
        },
{
    v.as_f64().map(|x| x.to_bits())
}

/// `Value::as_array`: the elements of a JSON array, in order.
#[verifier::external_body]
pub(crate) fn json_as_array<'a>(v: &'a JsonValue) -> (r: Option<&'a Vec<JsonValue>>)
    ensures
        match json_model(*v) {
            JsonModel::Array(items) => r matches Some(elements) && elements@.len() == items.len()
                && forall|i: int|
                0 <= i < items.len() ==> json_model(#[trigger] elements@[i]) == items[i],
            _ => r is None,
        },
{
    v.as_array()
}

/// `Value::is_null`.
#[verifier::external_body]
pub(crate) fn json_is_null(v: &JsonValue) -> (r: bool)
    ensures
        r == (json_model(*v) is Null),
{
    v.is_null()
}

/// `Value::as_object` followed by `Map::len`: the number of members of a
/// JSON object.
#[verifier::external_body]
pub(crate) fn json_object_len(v: &JsonValue) -> (r: Option<usize>)
    ensures
        match json_model(*v) {
            JsonModel::Object(members) => r matches Some(n) && members.dom().finite()
                && members.dom().len() == n,
            _ => r is None,
        },
{
    v.as_object().map(|members| members.len())
}

/// The member called `key` of a JSON object.
pub open spec fn member(m: JsonModel, key: Seq<char>) -> Option<JsonModel> {
    match m {
        JsonModel::Object(members) => if members.contains_key(key) {
            Some(members[key])
        } else {
            None
        },
        _ => None,
    }
}

/// The text of the string member called `key`.
pub open spec fn text_member(m: JsonModel, key: Seq<char>) -> Option<Seq<char>> {
    match member(m, key) {
        Some(JsonModel::String(text)) => Some(text),
        _ => None,
    }
}

/// The elements of the array member called `key`.
pub open spec fn array_member(m: JsonModel, key: Seq<char>) -> Option<Seq<JsonModel>> {
    match member(m, key) {
        Some(JsonModel::Array(items)) => Some(items),
        _ => None,
    }
}

/// Reads the string member called `key`.
pub fn json_text_member(v: &JsonValue, key: &str) -> (r: Option<String>)
    ensures
        match text_member(json_model(*v), key@) {
            Some(text) => r matches Some(s) && s@ == text,
            None => r is None,
        },
{
    match json_get(v, key) {
        Some(found) => match json_as_str(found) {
            Some(text) => Some(text.to_owned()),
            None => None,
        },
        None => None,
    }
}

} // verus!
