//! JSON values as the inverter's WebConnect replies carry them, and the
//! lookups that the controller makes in them.

use vstd::prelude::*;
use crate::text::text_eq;

verus! {

/// A JSON value. Objects keep their members in the order they are read.
#[derive(Debug)]
pub enum JsonValue {
    Null,
    Bool(bool),
    /// A number, held as the unsigned 64-bit integer it is, or `None` where it
    /// is negative or fractional (what `as_u64` gives).
    Number(Option<u64>),
    Str(String),
    Array(Vec<JsonValue>),
    Object(Vec<(String, JsonValue)>),
}

/// The index of the first member at or after `i` whose name is `key`.
pub open spec fn member_index_from(entries: Seq<(String, JsonValue)>, key: Seq<char>, i: int) -> Option<int>
    decreases entries.len() - i,
{
    if i < 0 || i >= entries.len() {
        None
    } else if entries[i].0@ == key {
        Some(i)
    } else {
        member_index_from(entries, key, i + 1)
    }
}

/// The member `key` of an object (`None` for other values and absent names).
pub open spec fn member(v: JsonValue, key: Seq<char>) -> Option<JsonValue> {
    match v {
        JsonValue::Object(entries) => match member_index_from(entries@, key, 0) {
            Some(i) => Some(entries@[i].1),
            None => None,
        },
        _ => None,
    }
}

/// The element at `i` of an array (`None` for other values and out of range).
pub open spec fn element(v: JsonValue, i: int) -> Option<JsonValue> {
    match v {
        JsonValue::Array(items) => if 0 <= i < items@.len() {
            Some(items@[i])
        } else {
            None
        },
        _ => None,
    }
}

/// The value as an unsigned integer, if it is one.
pub open spec fn as_u64(v: JsonValue) -> Option<u64> {
    match v {
        JsonValue::Number(n) => n,
        _ => None,
    }
}

/// The member `key` of `v`, if `v` is an object that has one.
pub fn get_member<'a>(v: &'a JsonValue, key: &str) -> (r: Option<&'a JsonValue>)
    ensures
        match member(*v, key@) {
            Some(m) => r == Some(&m),
            None => r is None,
        },
{
    match v {
        JsonValue::Object(entries) => {
            let mut i: usize = 0;
            while i < entries.len()
                invariant
                    0 <= i <= entries@.len(),
                    *v == JsonValue::Object(*entries),
                    member_index_from(entries@, key@, i as int) == member_index_from(
                        entries@,
                        key@,
                        0,
                    ),
                decreases entries@.len() - i,
            {
                if text_eq(entries[i].0.as_str(), key) {
                    assert(entries@[i as int].0@ == key@);
                    assert(member_index_from(entries@, key@, i as int) == Some(i as int));
                    return Some(&entries[i].1);
                }
                i += 1;
            }
            None
        },
        _ => None,
    }
}

/// The element at `i` of `v`, if `v` is an array that long.
pub fn get_element(v: &JsonValue, i: usize) -> (r: Option<&JsonValue>)
    ensures
        match element(*v, i as int) {
            Some(m) => r == Some(&m),
            None => r is None,
        },
{
    match v {
        JsonValue::Array(items) => if i < items.len() {
            Some(&items[i])
        } else {
            None
        },
        _ => None,
    }
}

/// The value of `v` as an unsigned integer, if it is one.
pub fn get_u64(v: &JsonValue) -> (r: Option<u64>)
    ensures
        r == as_u64(*v),
{
    match v {
        JsonValue::Number(n) => *n,
        _ => None,
    }
}

} // verus!

verus! {

#[verifier::external_type_specification]
#[verifier::external_body]
pub struct ExSerdeJsonValue(serde_json::Value);

/// The value that `serde_json::from_str::<serde_json::Value>` reads from
/// `text`, as a `JsonValue` (`None` where the text is no JSON).
pub uninterp spec fn json_of_text(text: Seq<char>) -> Option<JsonValue>;

/// Calls `serde_json::from_str::<serde_json::Value>` and converts the value
/// one for one. The contract names the result; serde_json's grammar is not
/// restated. Objects keep their members in the order of serde_json's map
/// (sorted by name with default features); numbers keep what `as_u64` gives.
#[verifier::external_body]
pub(crate) fn parse_json(text: &str) -> (r: Option<JsonValue>)
    ensures
        r == json_of_text(text@),
{
    match serde_json::from_str::<serde_json::Value>(text) {
        Ok(v) => Some(json_from_serde(&v)),
        Err(_) => None,
    }
}

/// The `JsonValue` for a `serde_json::Value`, variant by variant (the
/// conversion that `parse_json` applies; no contract of its own).
#[verifier::external_body]
fn json_from_serde(v: &serde_json::Value) -> JsonValue {
    match v {
        serde_json::Value::Null => JsonValue::Null,
        serde_json::Value::Bool(b) => JsonValue::Bool(*b),
        serde_json::Value::Number(n) => JsonValue::Number(n.as_u64()),
        serde_json::Value::String(s) => JsonValue::Str(s.clone()),
        serde_json::Value::Array(a) => JsonValue::Array(a.iter().map(json_from_serde).collect()),
        serde_json::Value::Object(m) => JsonValue::Object(
            m.iter().map(|(k, x)| (k.clone(), json_from_serde(x))).collect(),
        ),
    }
}

} // verus!
