//! The JSON values of `serde_json`, as far as the rewriting of a manifest
//! reads and changes them.
//!
//! A `Value` and a `serde_json::Map` are opaque to the verifier. What is
//! said of them is said over names without a definition: the text of a
//! value that is a string, the map of a value that is an object, the
//! members of a map, the value that a text is the JSON of, and the JSON
//! text of a value. Each function below makes one call into `serde_json`,
//! and its contract is taken on trust.

use serde_json::Value;
use vstd::prelude::*;

verus! {

/// A JSON value of any kind.
#[verifier::external_type_specification]
#[verifier::external_body]
pub struct ExValue(serde_json::Value);

/// The members of a JSON object.
#[verifier::external_type_specification]
#[verifier::external_body]
#[verifier::reject_recursive_types(K)]
#[verifier::reject_recursive_types(V)]
pub struct ExJsonMap<K, V>(serde_json::Map<K, V>);

/// Why a text could not be read as JSON, or a value not written as JSON.
#[verifier::external_type_specification]
#[verifier::external_body]
pub struct ExJsonError(serde_json::Error);

/// The text of `value` where it is a JSON string, `None` where it is of
/// another kind: what `Value::as_str` gives.
pub uninterp spec fn json_text(value: Value) -> Option<Seq<char>>;

/// The map of `value` where it is a JSON object, `None` where it is of
/// another kind: what `Value::as_object` gives.
pub uninterp spec fn json_object(value: Value) -> Option<serde_json::Map<String, Value>>;

/// The members that `map` holds, each under its key.
pub uninterp spec fn map_members(map: serde_json::Map<String, Value>) -> Map<Seq<char>, Value>;

/// The value that `text` is the JSON of, `None` where it is not JSON: what
/// `serde_json::from_str` gives.
pub uninterp spec fn json_parsed(text: Seq<char>) -> Option<Value>;

/// The JSON text of `value`, `None` where it cannot be written: what
/// `serde_json::to_string` gives.
pub uninterp spec fn json_rendered(value: Value) -> Option<Seq<char>>;

/// Calls `serde_json::from_str` for a `Value`, which reads a JSON text.
#[verifier::external_body]
pub(crate) fn parse_json(text: &str) -> (parsed: Result<Value, serde_json::Error>)
    ensures
        match parsed {
            Ok(value) => json_parsed(text@) == Some(value),
            Err(_) => json_parsed(text@) is None,
        },
{
    serde_json::from_str(text)
}

/// Calls `serde_json::to_string` on a `Value`, which writes it as JSON on
/// one line.
#[verifier::external_body]
pub(crate) fn render_json(value: &Value) -> (rendered: Result<String, serde_json::Error>)
    ensures
        match rendered {
            Ok(text) => json_rendered(*value) == Some(text@),
            Err(_) => json_rendered(*value) is None,
        },
{
    serde_json::to_string(value)
}

/// Writes the error out with its `Display`, which gives the parser's or
/// the writer's own message. Nothing is claimed of the words.
#[verifier::external_body]
pub(crate) fn error_text(error: &serde_json::Error) -> (text: String) {
    format!("{}", error)
}

/// Calls `Value::as_str`: the text of a string, `None` for any other kind
/// of value.
#[verifier::external_body]
pub(crate) fn as_text(value: &Value) -> (text: Option<&str>)
    ensures
        match text {
            Some(s) => json_text(*value) == Some(s@),
            None => json_text(*value) is None,
        },
{
    value.as_str()
}

/// Calls `Value::as_object`: the map of an object, `None` for any other
/// kind of value.
#[verifier::external_body]
pub(crate) fn as_object(value: &Value) -> (object: Option<&serde_json::Map<String, Value>>)
    ensures
        match object {
            Some(map) => json_object(*value) == Some(*map),
            None => json_object(*value) is None,
        },
{
    value.as_object()
}

/// Calls `Value::get` with a string key: the member under `key` where
/// `value` is an object that has one, `None` otherwise.
#[verifier::external_body]
pub(crate) fn member<'a>(value: &'a Value, key: &str) -> (found: Option<&'a Value>)
    ensures
        match found {
            Some(v) => json_object(*value) is Some && map_members(
                json_object(*value)->0,
            ).contains_key(key@) && map_members(json_object(*value)->0)[key@] == *v,
            None => json_object(*value) is None || !map_members(
                json_object(*value)->0,
            ).contains_key(key@),
        },
{
    value.get(key)
}

/// Calls `serde_json::Map::iter` and collects what it yields: every member
/// of the map with its key, once.
#[verifier::external_body]
pub(crate) fn entries<'a>(map: &'a serde_json::Map<String, Value>) -> (all: Vec<
    (&'a String, &'a Value),
>)
    ensures
        forall|i: int|
            0 <= i < all.len() ==> map_members(*map).contains_key((#[trigger] all[i]).0@)
                && map_members(*map)[all[i].0@] == *all[i].1,
        forall|key: Seq<char>| #[trigger]
            map_members(*map).contains_key(key) ==> exists|i: int|
                0 <= i < all.len() && (#[trigger] all[i]).0@ == key,
{
    map.iter().collect()
}

/// Calls `Value::clone`: a value equal to `value`.
#[verifier::external_body]
pub(crate) fn copy_of(value: &Value) -> (copy: Value)
    ensures
        copy == *value,
{
    value.clone()
}

/// Calls `Value::from` on a `String`: the JSON string with that text.
#[verifier::external_body]
pub(crate) fn text_value(text: String) -> (value: Value)
    ensures
        json_text(value) == Some(text@),
        json_object(value) is None,
{
    Value::from(text)
}

/// Calls `Value::from` on a map: the JSON object with that map.
#[verifier::external_body]
pub(crate) fn object_value(map: serde_json::Map<String, Value>) -> (value: Value)
    ensures
        json_object(value) == Some(map),
        json_text(value) is None,
{
    Value::from(map)
}

/// Calls `serde_json::Map::new`: a map without members.
#[verifier::external_body]
pub(crate) fn new_map() -> (fresh: serde_json::Map<String, Value>)
    ensures
        forall|key: Seq<char>| !map_members(fresh).contains_key(key),
{
    serde_json::Map::new()
}

/// Calls `serde_json::Map::insert`: `value` stands under `key` afterwards,
/// in place of what stood there, and the other members are as before.
#[verifier::external_body]
pub(crate) fn insert_member(map: &mut serde_json::Map<String, Value>, key: String, value: Value)
    ensures
        map_members(*final(map)) == map_members(*old(map)).insert(key@, value),
{
    map.insert(key, value);
}

/// Assigns through `Value`'s index operator with a string key, which
/// panics on a value that is neither an object nor null. On an object,
/// `member` stands under `key` afterwards and the other members are as
/// before.
#[verifier::external_body]
pub(crate) fn set_member(value: &mut Value, key: &str, member: Value)
    requires
        json_object(*old(value)) is Some,
    ensures
        json_object(*final(value)) is Some,
        map_members(json_object(*final(value))->0) == map_members(
            json_object(*old(value))->0,
        ).insert(key@, member),
{
    value[key] = member;
}

} // verus!
