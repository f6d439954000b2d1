//! Trusted boundary to the JSON parser.
//!
//! A parsed document is carried as an opaque outside value. What each
//! accessor returns is a function of that value alone, so each result is
//! named here; the decoder's contracts downstream are stated over these
//! names, and all assembly logic is verified against them.

use vstd::prelude::*;

verus! {

/// The document value type of the outside JSON parser, declared so that
/// verified code can carry such values; what is inside stays opaque.
#[verifier::external_type_specification]
#[verifier::external_body]
pub struct ExValue(serde_json::Value);

/// The document that the JSON parser yields on `s`, or `None` when it
/// rejects `s`.
pub uninterp spec fn json_doc_of(s: Seq<char>) -> Option<serde_json::Value>;

/// The entry a JSON value holds under a key, when it is an object
/// holding that key.
pub uninterp spec fn entry_of(v: serde_json::Value, key: Seq<char>) -> Option<serde_json::Value>;

/// The characters of a JSON value, when it is a string.
pub uninterp spec fn str_of(v: serde_json::Value) -> Option<Seq<char>>;

/// Whether a JSON value is null.
pub uninterp spec fn null_of(v: serde_json::Value) -> bool;

/// Whether a JSON value is a number.
pub uninterp spec fn num_of(v: serde_json::Value) -> bool;

/// The JSON text a value renders back to.
pub uninterp spec fn text_of(v: serde_json::Value) -> Seq<char>;

/// The elements of a JSON value, when it is an array.
pub uninterp spec fn arr_of(v: serde_json::Value) -> Option<Seq<serde_json::Value>>;

/// Parses one JSON document.
///
/// Relies on serde_json::from_str: whether a text parses, and to which
/// document, is a function of the text alone.
#[verifier::external_body]
pub fn parse_json_document(s: &str) -> (r: Option<serde_json::Value>)
    ensures
        r matches Some(v) ==> json_doc_of(s@) == Some(v),
        r is None ==> json_doc_of(s@) is None,
{
    match serde_json::from_str::<serde_json::Value>(s) {
        Ok(v) => Some(v),
        Err(_) => None,
    }
}

/// Looks a key up in a JSON object.
///
/// Relies on serde_json::Value::get: the entry under `key` when `v` is
/// an object holding that key, `None` otherwise.
#[verifier::external_body]
pub fn value_get<'a>(v: &'a serde_json::Value, key: &str) -> (r: Option<&'a serde_json::Value>)
    ensures
        r matches Some(e) ==> entry_of(*v, key@) == Some(*e),
        r is None ==> entry_of(*v, key@) is None,
{
    v.get(key)
}

/// Reads a JSON string value's characters.
///
/// Relies on serde_json::Value::as_str: `Some` exactly when the value is
/// a JSON string, and then its characters.
#[verifier::external_body]
pub fn value_as_str(v: &serde_json::Value) -> (r: Option<String>)
    ensures
        r.deep_view() == str_of(*v),
{
    match v.as_str() {
        Some(s) => Some(s.to_owned()),
        None => None,
    }
}

/// Tells whether a JSON value is null.
///
/// Relies on serde_json::Value::is_null.
#[verifier::external_body]
pub fn value_is_null(v: &serde_json::Value) -> (r: bool)
    ensures
        r == null_of(*v),
{
    v.is_null()
}

/// Tells whether a JSON value is a number.
///
/// Relies on serde_json::Value::is_number.
#[verifier::external_body]
pub fn value_is_number(v: &serde_json::Value) -> (r: bool)
    ensures
        r == num_of(*v),
{
    v.is_number()
}

/// Renders a JSON value back to JSON text; used to keep a number's
/// decimal notation without binding this crate to floating point.
///
/// Relies on serde_json's `Display` for `Value`, which prints the value
/// as compact JSON text.
#[verifier::external_body]
pub fn value_to_text(v: &serde_json::Value) -> (r: String)
    ensures
        r@ == text_of(*v),
{
    v.to_string()
}

/// Reads a JSON array's elements.
///
/// Relies on serde_json::Value::as_array: `Some` exactly when the value
/// is a JSON array.
#[verifier::external_body]
pub fn value_as_array<'a>(v: &'a serde_json::Value) -> (r: Option<&'a Vec<serde_json::Value>>)
    ensures
        r matches Some(a) ==> arr_of(*v) == Some(a@),
        r is None ==> arr_of(*v) is None,
{
    v.as_array()
}

} // verus!
