//! Trusted boundary to `serde_json`: the opaque payload values that
//! envelopes carry, and the handful of calls the decoder makes on them.
//! Each call is deterministic in its arguments, so each result is given
//! a name, and each item's contract says over that name exactly what
//! the crate's source shows.

use vstd::prelude::*;

verus! {

#[verifier::external_type_specification]
#[verifier::external_body]
pub struct ExValue(serde_json::Value);

/// What `serde_json::from_str` makes of a string: the parsed document,
/// or nothing when the string is not well-formed JSON.  A function of
/// the string's characters alone.
pub uninterp spec fn json_value_of(s: Seq<char>) -> Option<serde_json::Value>;

/// Whether a string is a well-formed JSON document.
pub open spec fn json_parses(s: Seq<char>) -> bool {
    json_value_of(s) is Some
}

/// The elements of an `Array` value, and nothing of any other variant.
pub uninterp spec fn json_array_of(v: serde_json::Value) -> Option<Seq<serde_json::Value>>;

/// The value under a key of an `Object` value, and nothing of a
/// missing key or any other variant.
pub uninterp spec fn json_field_of(v: serde_json::Value, key: Seq<char>) -> Option<
    serde_json::Value,
>;

/// The text of a `String` value, and nothing of any other variant.
pub uninterp spec fn json_str_of(v: serde_json::Value) -> Option<Seq<char>>;

/// A `Number` value as an `i64` when it is representable that way, and
/// nothing otherwise.
pub uninterp spec fn json_i64_of(v: serde_json::Value) -> Option<i64>;

/// Relies on `serde_json::from_str`: parses the document, erring on
/// malformed input, deterministically in the input alone.
#[verifier::external_body]
pub(crate) fn json_parse(s: &str) -> (r: Option<serde_json::Value>)
    ensures
        r == json_value_of(s@),
{
    let parsed: Result<serde_json::Value, serde_json::Error> = serde_json::from_str(s);
    match parsed {
        Ok(v) => Some(v),
        Err(_) => None,
    }
}

/// Relies on `serde_json::Value`: an `Array` value holds its list of
/// elements, and no other variant does.
#[verifier::external_body]
pub(crate) fn json_into_array(v: serde_json::Value) -> (r: Option<Vec<serde_json::Value>>)
    ensures
        match r {
            Some(items) => json_array_of(v) == Some(items@),
            None => json_array_of(v) is None,
        },
{
    match v {
        serde_json::Value::Array(items) => Some(items),
        _ => None,
    }
}

/// Relies on `serde_json::Value::get`: looks a key up in an object,
/// `None` on a missing key or a non-object.
#[verifier::external_body]
pub(crate) fn json_field<'a>(v: &'a serde_json::Value, key: &str) -> (r: Option<
    &'a serde_json::Value,
>)
    ensures
        match r {
            Some(f) => json_field_of(*v, key@) == Some(*f),
            None => json_field_of(*v, key@) is None,
        },
{
    v.get(key)
}

/// Relies on `serde_json::Value::as_str`: the text of a `String` value,
/// `None` on any other variant.
#[verifier::external_body]
pub(crate) fn json_string(v: &serde_json::Value) -> (r: Option<String>)
    ensures
        match r {
            Some(text) => json_str_of(*v) == Some(text@),
            None => json_str_of(*v) is None,
        },
{
    match v.as_str() {
        Some(s) => Some(s.to_owned()),
        None => None,
    }
}

/// Relies on `serde_json::Value::as_i64`: a `Number` value as an `i64`
/// when it is representable, `None` otherwise.
#[verifier::external_body]
pub(crate) fn json_i64(v: &serde_json::Value) -> (r: Option<i64>)
    ensures
        r == json_i64_of(*v),
{
    v.as_i64()
}

/// Relies on `serde_json::Value`'s derived `Clone`: a deep, structural
/// copy, equal to the original.
#[verifier::external_body]
pub(crate) fn json_clone(v: &serde_json::Value) -> (r: serde_json::Value)
    ensures
        r == *v,
{
    v.clone()
}

} // verus!
