//! Trusted wrappers over `serde_json`, shared by the context builders and
//! the repair pipeline.

use vstd::prelude::*;

verus! {

/// A JSON value of `serde_json`, carried through unchanged.
#[verifier::external_type_specification]
#[verifier::external_body]
pub struct ExJsonValue(serde_json::Value);

/// The bytes `serde_json::to_vec` gives for the object
/// `{"role": role, "content": content}` (keys in `serde_json::Map` order).
pub uninterp spec fn json_message(role: Seq<char>, content: Seq<char>) -> Seq<u8>;

/// Serialises `{"role": role, "content": content}` with `serde_json::to_vec`.
/// The bytes are named `json_message`; serde_json writes an object as `{`, its
/// entries and `}`, so they are never empty.
#[verifier::external_body]
pub(crate) fn role_content_json(role: &str, content: &str) -> (r: Vec<u8>)
    ensures
        r@ == json_message(role@, content@),
        r@.len() > 0,
{
    let mut m = serde_json::Map::new();
    m.insert("role".to_string(), serde_json::Value::String(role.to_string()));
    m.insert("content".to_string(), serde_json::Value::String(content.to_string()));
    serde_json::to_vec(&serde_json::Value::Object(m)).unwrap_or_default()
}

/// The compact text (`serde_json::to_string`) of the value that
/// `serde_json::from_str` reads from `s`; none when `s` is not exactly one
/// JSON value, whitespace around it aside.
pub uninterp spec fn json_compact_spec(s: Seq<char>) -> Option<Seq<char>>;

/// The compact text (`serde_json::to_string`) of the value that
/// `serde_json::from_slice` reads from the bytes `b`; none when they are not
/// exactly one JSON value.
pub uninterp spec fn json_compact_bytes_spec(b: Seq<u8>) -> Option<Seq<char>>;

/// The compact text (`serde_json::to_string`) of the member `key` of the
/// JSON object that `serde_json::from_str` reads from `s` (`Value::get`);
/// none when `s` is no JSON value, the value no object, or the member absent.
pub uninterp spec fn json_member_spec(s: Seq<char>, key: Seq<char>) -> Option<Seq<char>>;

/// The text of the JSON string that `serde_json::from_str` reads from `s`
/// (`Value::as_str`); none when `s` is no JSON value or the value no string.
pub uninterp spec fn json_string_spec(s: Seq<char>) -> Option<Seq<char>>;

/// Reads one JSON value from `s` (`serde_json::from_str`) and gives its
/// compact text (`serde_json::to_string`); the result is named
/// `json_compact_spec`.
#[verifier::external_body]
pub(crate) fn json_compact(s: &str) -> (r: Option<String>)
    ensures
        match r {
            Some(t) => json_compact_spec(s@) == Some(t@),
            None => json_compact_spec(s@) is None,
        },
{
    match serde_json::from_str::<serde_json::Value>(s) {
        Ok(v) => serde_json::to_string(&v).ok(),
        Err(_) => None,
    }
}

/// Reads one JSON value from the bytes `b` (`serde_json::from_slice`) and
/// gives its compact text (`serde_json::to_string`); the result is named
/// `json_compact_bytes_spec`.
#[verifier::external_body]
pub(crate) fn json_compact_bytes(b: &[u8]) -> (r: Option<String>)
    ensures
        match r {
            Some(t) => json_compact_bytes_spec(b@) == Some(t@),
            None => json_compact_bytes_spec(b@) is None,
        },
{
    match serde_json::from_slice::<serde_json::Value>(b) {
        Ok(v) => serde_json::to_string(&v).ok(),
        Err(_) => None,
    }
}

/// The member `key` of the JSON object read from `s` (`Value::get`), as
/// compact text; the result is named `json_member_spec`.
#[verifier::external_body]
pub(crate) fn json_member(s: &str, key: &str) -> (r: Option<String>)
    ensures
        match r {
            Some(t) => json_member_spec(s@, key@) == Some(t@),
            None => json_member_spec(s@, key@) is None,
        },
{
    match serde_json::from_str::<serde_json::Value>(s) {
        Ok(v) => match v.get(key) {
            Some(m) => serde_json::to_string(m).ok(),
            None => None,
        },
        Err(_) => None,
    }
}

/// The text of the JSON string read from `s` (`Value::as_str`); the result
/// is named `json_string_spec`.
#[verifier::external_body]
pub(crate) fn json_string(s: &str) -> (r: Option<String>)
    ensures
        match r {
            Some(t) => json_string_spec(s@) == Some(t@),
            None => json_string_spec(s@) is None,
        },
{
    match serde_json::from_str::<serde_json::Value>(s) {
        Ok(v) => match v.as_str() {
            Some(t) => Some(t.to_string()),
            None => None,
        },
        Err(_) => None,
    }
}

/// Reads one JSON value from `s` (`serde_json::from_str`); none when `s`
/// is not exactly one JSON value. `serde_json::to_string` writes every value
/// it reads, so this reads exactly when `json_compact_spec(s)` is some.
#[verifier::external_body]
pub(crate) fn json_value(s: &str) -> (r: Option<serde_json::Value>)
    ensures
        r is Some == json_compact_spec(s@) is Some,
{
    serde_json::from_str(s).ok()
}

/// `Clone` of a JSON value: makes a deep copy. A value is opaque here, so
/// nothing is stated of the copy.
pub assume_specification[ <serde_json::Value as Clone>::clone ](v: &serde_json::Value) -> serde_json::Value;

} // verus!
