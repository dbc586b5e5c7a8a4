//! The crate's one boundary with `serde_json`: named results for what its
//! parser yields on a given text, and trusted wrappers that extract plain
//! values.  Everything built on top of these is verified against the names.

use vstd::prelude::*;

verus! {

/// The string value of field `key`, when `text` parses as a JSON object
/// holding one there.
pub uninterp spec fn json_string_field(text: Seq<char>, key: Seq<char>) -> Option<Seq<char>>;

/// The signed integer value of field `key`, when `text` parses as a JSON
/// object holding one there.
pub uninterp spec fn json_int_field(text: Seq<char>, key: Seq<char>) -> Option<i64>;

/// The non-negative integer value of field `key`, when `text` parses as a
/// JSON object holding one there.
pub uninterp spec fn json_uint_field(text: Seq<char>, key: Seq<char>) -> Option<u64>;

/// Whether `text` parses as a JSON object that has a field `key` at all.
pub uninterp spec fn json_has_field(text: Seq<char>, key: Seq<char>) -> bool;

/// The re-serialized text of field `key`, whatever its shape, when `text`
/// parses as a JSON object holding that field.
pub uninterp spec fn json_raw_field(text: Seq<char>, key: Seq<char>) -> Option<Seq<char>>;

/// The re-serialized texts of the elements, in order, when `text` parses as
/// a JSON array.
pub uninterp spec fn json_array_items(text: Seq<char>) -> Option<Seq<Seq<char>>>;

/// Whether `text` parses as a JSON object.
pub uninterp spec fn json_is_object(text: Seq<char>) -> bool;

/// Relies on `serde_json::from_str`, `Value::get` and `Value::as_str`: the
/// string value of a field of a JSON object, a function of the text alone.
#[verifier::external_body]
pub fn get_string_field(text: &str, key: &str) -> (r: Option<String>)
    ensures
        r.deep_view() == json_string_field(text@, key@),
{
    let v: serde_json::Value = serde_json::from_str(text).ok()?;
    Some(v.get(key)?.as_str()?.to_owned())
}

/// Relies on `serde_json::from_str`, `Value::get` and `Value::as_i64`: the
/// signed integer value of a field, a function of the text alone.
#[verifier::external_body]
pub fn get_int_field(text: &str, key: &str) -> (r: Option<i64>)
    ensures
        r == json_int_field(text@, key@),
{
    let v: serde_json::Value = serde_json::from_str(text).ok()?;
    v.get(key)?.as_i64()
}

/// Relies on `serde_json::from_str`, `Value::get` and `Value::as_u64`: the
/// non-negative integer value of a field, a function of the text alone.
#[verifier::external_body]
pub fn get_uint_field(text: &str, key: &str) -> (r: Option<u64>)
    ensures
        r == json_uint_field(text@, key@),
{
    let v: serde_json::Value = serde_json::from_str(text).ok()?;
    v.get(key)?.as_u64()
}

/// Relies on `serde_json::from_str` and `Value::get`: whether a JSON object
/// has a field at all, a function of the text alone.
#[verifier::external_body]
pub fn has_field(text: &str, key: &str) -> (r: bool)
    ensures
        r == json_has_field(text@, key@),
{
    match serde_json::from_str::<serde_json::Value>(text) {
        Ok(v) => v.is_object() && v.get(key).is_some(),
        Err(_) => false,
    }
}

/// Relies on `serde_json::from_str`, `Value::get` and `Value::to_string`:
/// the re-serialized text of a field, a function of the text alone.
#[verifier::external_body]
pub fn get_raw_field(text: &str, key: &str) -> (r: Option<String>)
    ensures
        r.deep_view() == json_raw_field(text@, key@),
{
    let v: serde_json::Value = serde_json::from_str(text).ok()?;
    Some(v.get(key)?.to_string())
}

/// Relies on `serde_json::from_str` on a vector of values and
/// `Value::to_string`: the elements of a JSON array, re-serialized in order,
/// a function of the text alone.
#[verifier::external_body]
pub fn get_array_items(text: &str) -> (r: Option<Vec<String>>)
    ensures
        r.deep_view() == json_array_items(text@),
{
    let v: Vec<serde_json::Value> = serde_json::from_str(text).ok()?;
    Some(v.iter().map(|item| item.to_string()).collect())
}

/// Relies on `serde_json::from_str` and `Value::is_object`: whether the text
/// parses as a JSON object, a function of the text alone.
#[verifier::external_body]
pub fn is_object_text(text: &str) -> (r: bool)
    ensures
        r == json_is_object(text@),
{
    match serde_json::from_str::<serde_json::Value>(text) {
        Ok(v) => v.is_object(),
        Err(_) => false,
    }
}

} // verus!
