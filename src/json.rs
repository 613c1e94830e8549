//! JSON values of serde_json, seen by the library through a model of plain values.
//!
//! A `serde_json::Value` is opaque to proofs. `json_view` names what a value holds
//! and the trusted items below state each serde_json call the library makes over
//! that model. The object map is serde_json's default one, ordered by key, so the
//! text of a value depends on its model alone.

use vstd::prelude::*;

verus! {

#[verifier::external_type_specification]
#[verifier::external_body]
pub struct ExValue(serde_json::Value);

#[verifier::external_type_specification]
#[verifier::external_body]
#[verifier::reject_recursive_types(K)]
#[verifier::reject_recursive_types(V)]
pub struct ExJsonMap<K, V>(serde_json::Map<K, V>);

/// What a JSON value holds.
pub enum JsonView {
    Null,
    Bool(bool),
    /// A number held as an integer.
    Int(int),
    /// A number held as a float, by the bits of its IEEE 754 double.
    Float(u64),
    Str(Seq<char>),
    Array(Seq<JsonView>),
    Object(Map<Seq<char>, JsonView>),
}

/// What a serde_json value holds.
pub uninterp spec fn json_view(v: serde_json::Value) -> JsonView;

/// The entries of a serde_json object map.
pub uninterp spec fn map_view(m: serde_json::Map<String, serde_json::Value>) -> Map<
    Seq<char>,
    JsonView,
>;

/// The text that serde_json::to_string writes for a value.
pub uninterp spec fn compact_text(v: JsonView) -> Seq<char>;

/// The text that serde_json::to_string_pretty writes for a value.
pub uninterp spec fn pretty_text(v: JsonView) -> Seq<char>;

pub open spec fn json_views(s: Seq<serde_json::Value>) -> Seq<JsonView> {
    s.map_values(|v: serde_json::Value| json_view(v))
}

/// Relies on serde_json's derived Clone for Value: a copy that holds the same.
pub assume_specification[ <serde_json::Value as Clone>::clone ](v: &serde_json::Value) -> (r:
    serde_json::Value)
    ensures
        json_view(r) == json_view(*v),
;

/// Relies on the serde_json::Value::String constructor.
#[verifier::external_body]
pub fn json_string(s: String) -> (r: serde_json::Value)
    ensures
        json_view(r) == JsonView::Str(s@),
{
    serde_json::Value::String(s)
}

/// Relies on serde_json's From<i64> for Value: a number held as that integer.
#[verifier::external_body]
pub fn json_int(n: i64) -> (r: serde_json::Value)
    ensures
        json_view(r) == JsonView::Int(n as int),
{
    serde_json::Value::from(n)
}

/// Relies on the serde_json::Value::Array constructor.
#[verifier::external_body]
pub fn json_array(items: Vec<serde_json::Value>) -> (r: serde_json::Value)
    ensures
        json_view(r) == JsonView::Array(json_views(items@)),
{
    serde_json::Value::Array(items)
}

/// Relies on the serde_json::Value::Object constructor.
#[verifier::external_body]
pub fn json_object(m: serde_json::Map<String, serde_json::Value>) -> (r: serde_json::Value)
    ensures
        json_view(r) == JsonView::Object(map_view(m)),
{
    serde_json::Value::Object(m)
}

/// Relies on serde_json::Map::new: an empty map.
#[verifier::external_body]
pub fn new_map() -> (m: serde_json::Map<String, serde_json::Value>)
    ensures
        map_view(m).dom() == Set::<Seq<char>>::empty(),
{
    serde_json::Map::new()
}

/// Relies on serde_json::Map::insert: the key maps to the value afterwards,
/// and every other entry stays.
#[verifier::external_body]
pub fn map_insert(
    m: &mut serde_json::Map<String, serde_json::Value>,
    key: String,
    value: serde_json::Value,
)
    ensures
        map_view(*final(m)) == map_view(*old(m)).insert(key@, json_view(value)),
{
    m.insert(key, value);
}

/// The entry of a key in an object value; nothing for a value of another kind.
pub open spec fn entry(j: JsonView, key: Seq<char>) -> Option<JsonView> {
    match j {
        JsonView::Object(m) => if m.contains_key(key) {
            Some(m[key])
        } else {
            None
        },
        _ => None,
    }
}

/// The text of the entry of a key, when that entry is a string.
pub open spec fn text_entry(j: JsonView, key: Seq<char>) -> Option<Seq<char>> {
    match entry(j, key) {
        Some(JsonView::Str(s)) => Some(s),
        _ => None,
    }
}

/// Relies on serde_json::Value::get with a string key: the entry of that key
/// when the value is an object that has it, and nothing otherwise.
#[verifier::external_body]
pub fn json_get<'a>(v: &'a serde_json::Value, key: &str) -> (r: Option<&'a serde_json::Value>)
    ensures
        match entry(json_view(*v), key@) {
            Some(e) => r is Some && json_view(*r->Some_0) == e,
            None => r is None,
        },
{
    v.get(key)
}

/// Relies on serde_json::Value::as_str: the text of a string value.
#[verifier::external_body]
pub fn json_as_str<'a>(v: &'a serde_json::Value) -> (r: Option<&'a str>)
    ensures
        match json_view(*v) {
            JsonView::Str(s) => r is Some && r->Some_0@ == s,
            _ => r is None,
        },
{
    v.as_str()
}

/// Relies on serde_json::Value::as_array: the items of an array value.
#[verifier::external_body]
pub fn json_as_array<'a>(v: &'a serde_json::Value) -> (r: Option<&'a Vec<serde_json::Value>>)
    ensures
        match json_view(*v) {
            JsonView::Array(items) => r is Some && json_views(r->Some_0@) == items,
            _ => r is None,
        },
{
    v.as_array()
}

/// Relies on serde_json::Value::as_i64: an integer number that fits in i64.
#[verifier::external_body]
pub fn json_as_i64(v: &serde_json::Value) -> (r: Option<i64>)
    ensures
        match json_view(*v) {
            JsonView::Int(i) => if i64::MIN <= i <= i64::MAX {
                r == Some(i as i64)
            } else {
                r is None
            },
            _ => r is None,
        },
{
    v.as_i64()
}

/// Relies on serde_json::Value::as_u64: an integer number that fits in u64.
#[verifier::external_body]
pub fn json_as_u64(v: &serde_json::Value) -> (r: Option<u64>)
    ensures
        match json_view(*v) {
            JsonView::Int(i) => if 0 <= i <= u64::MAX {
                r == Some(i as u64)
            } else {
                r is None
            },
            _ => r is None,
        },
{
    v.as_u64()
}

/// Relies on serde_json::Value::is_null.
#[verifier::external_body]
pub fn json_is_null(v: &serde_json::Value) -> (r: bool)
    ensures
        r == (json_view(*v) is Null),
{
    v.is_null()
}

/// Relies on serde_json::Value::is_object.
#[verifier::external_body]
pub fn json_is_object(v: &serde_json::Value) -> (r: bool)
    ensures
        r == (json_view(*v) is Object),
{
    v.is_object()
}

/// Relies on serde_json::to_string: the compact text of a value, or the
/// message of the error it reports.
#[verifier::external_body]
pub fn to_compact_text(v: &serde_json::Value) -> (r: Result<String, String>)
    ensures
        r is Ok ==> r->Ok_0@ == compact_text(json_view(*v)),
{
    serde_json::to_string(v).map_err(|e| e.to_string())
}

/// Relies on serde_json::to_string_pretty: the indented text of a value, or the
/// message of the error it reports.
#[verifier::external_body]
pub fn to_pretty_text(v: &serde_json::Value) -> (r: Result<String, String>)
    ensures
        r is Ok ==> r->Ok_0@ == pretty_text(json_view(*v)),
{
    serde_json::to_string_pretty(v).map_err(|e| e.to_string())
}

} // verus!
