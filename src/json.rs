//! Reading fields of JSON payloads.
use vstd::prelude::*;

verus! {

/// `serde_json::Value`, carried through as an opaque value.
#[verifier::external_type_specification]
#[verifier::external_body]
pub struct ExJsonValue(serde_json::Value);

/// Relies on `serde_json::Value::pointer`: looks a value up by JSON pointer.
/// Nothing is assumed of what it finds.
pub assume_specification<'a, 'b>[ serde_json::Value::pointer ](
    v: &'a serde_json::Value,
    pointer: &'b str,
) -> Option<&'a serde_json::Value>;

/// Relies on `serde_json::Value::as_str`: the string inside a JSON string value.
/// Nothing is assumed of it.
pub assume_specification[ serde_json::Value::as_str ](v: &serde_json::Value) -> Option<&str>;

/// Relies on `serde_json::Value::as_i64`: the integer inside a JSON number that
/// fits an `i64`. Nothing is assumed of it.
pub assume_specification[ serde_json::Value::as_i64 ](v: &serde_json::Value) -> Option<i64>;

/// Relies on `serde_json::Value::as_array`: the elements of a JSON array.
/// Nothing is assumed of them.
pub assume_specification[ serde_json::Value::as_array ](v: &serde_json::Value) -> Option<
    &Vec<serde_json::Value>,
>;

/// Relies on `serde_json::Value::as_bool`: the boolean inside a JSON boolean.
/// Nothing is assumed of it.
pub assume_specification[ serde_json::Value::as_bool ](v: &serde_json::Value) -> Option<bool>;

/// Relies on `serde_json::from_str`: parses JSON text; a parse error gives `None`.
/// Nothing is assumed of the value.
#[verifier::external_body]
pub fn parse_json(text: &str) -> Option<serde_json::Value> {
    serde_json::from_str(text).ok()
}

/// The string at a JSON pointer, if there is one.
pub fn str_at(v: &serde_json::Value, pointer: &str) -> Option<String> {
    match v.pointer(pointer) {
        Some(x) => match x.as_str() {
            Some(s) => Some(s.to_owned()),
            None => None,
        },
        None => None,
    }
}

/// The string at the first of two JSON pointers that holds one, else `default`.
pub fn str_at_or(v: &serde_json::Value, first: &str, second: &str, default: &str) -> String {
    match str_at(v, first) {
        Some(s) => s,
        None => match str_at(v, second) {
            Some(s) => s,
            None => default.to_owned(),
        },
    }
}

/// The integer at a JSON pointer, if there is one.
pub fn i64_at(v: &serde_json::Value, pointer: &str) -> Option<i64> {
    match v.pointer(pointer) {
        Some(x) => x.as_i64(),
        None => None,
    }
}

/// The strings of the array at a JSON pointer; other elements are skipped.
pub fn strings_at(v: &serde_json::Value, pointer: &str) -> Vec<String> {
    let mut r: Vec<String> = Vec::new();
    if let Some(x) = v.pointer(pointer) {
        if let Some(items) = x.as_array() {
            let mut i: usize = 0;
            while i < items.len()
                decreases items.len() - i,
            {
                if let Some(s) = items[i].as_str() {
                    r.push(s.to_owned());
                }
                i = i + 1;
            }
        }
    }
    r
}

/// The boolean at a JSON pointer, if there is one.
pub fn bool_at(v: &serde_json::Value, pointer: &str) -> Option<bool> {
    match v.pointer(pointer) {
        Some(x) => x.as_bool(),
        None => None,
    }
}

/// The elements of the array at a JSON pointer; empty when there is none.
pub fn array_at<'a>(v: &'a serde_json::Value, pointer: &str) -> Vec<&'a serde_json::Value> {
    let mut r: Vec<&'a serde_json::Value> = Vec::new();
    if let Some(x) = v.pointer(pointer) {
        if let Some(items) = x.as_array() {
            let mut i: usize = 0;
            while i < items.len()
                decreases items.len() - i,
            {
                r.push(&items[i]);
                i = i + 1;
            }
        }
    }
    r
}

/// Whether anything is at a JSON pointer.
pub fn has_at(v: &serde_json::Value, pointer: &str) -> bool {
    v.pointer(pointer).is_some()
}

} // verus!
