//! The boundary to `serde_json`: its value, map and error types, a mathematical
//! model of what a JSON value holds, and one small wrapper for each of its
//! functions that the library calls. Nothing in this file is proved: every
//! contract here restates what `serde_json` documents for the call it wraps.

use vstd::prelude::*;

verus! {

/// `serde_json::Value`: any JSON value. The verifier sees nothing inside it;
/// [`json_model`] names what it holds.
#[verifier::external_type_specification]
#[verifier::external_body]
pub struct ExJsonValue(serde_json::Value);

/// `serde_json::Map`: the map behind a JSON object. The verifier sees nothing
/// inside it; [`object_entries`] names what it holds.
#[verifier::external_type_specification]
#[verifier::external_body]
#[verifier::reject_recursive_types(K)]
#[verifier::reject_recursive_types(V)]
pub struct ExJsonMap<K, V>(serde_json::Map<K, V>);

/// `serde_json::Error`: why a text is no JSON. It is only carried through.
#[verifier::external_type_specification]
#[verifier::external_body]
pub struct ExJsonError(serde_json::Error);

/// A JSON number: a non-negative integer, a negative integer, or a finite
/// float given by its bit pattern.
pub enum NumberModel {
    Unsigned(u64),
    Negative(i64),
    Float(u64),
}

/// The mathematical content of a JSON document.
pub enum JsonModel {
    Null,
    Bool(bool),
    Number(NumberModel),
    Text(Seq<char>),
    List(Seq<JsonModel>),
    Object(Map<Seq<char>, JsonModel>),
}

/// What a `serde_json::Value` holds.
pub uninterp spec fn json_model(v: serde_json::Value) -> JsonModel;

/// What a `serde_json::Map` holds: its keys, and under each key the content of
/// its value.
pub uninterp spec fn object_entries(m: serde_json::Map<String, serde_json::Value>) -> Map<
    Seq<char>,
    JsonModel,
>;

/// The document that `serde_json` reads from a byte string, or `None` where it
/// rejects the bytes.
pub uninterp spec fn json_of_bytes(bytes: Seq<u8>) -> Option<JsonModel>;

/// The entries of an empty object.
pub open spec fn no_entries() -> Map<Seq<char>, JsonModel> {
    Map::empty()
}

/// Whether a map has exactly `n` entries.
pub open spec fn has_size(entries: Map<Seq<char>, JsonModel>, n: nat) -> bool {
    entries.dom().finite() && entries.len() == n
}

/// The member `key` of an object; `None` for a missing key and for anything
/// that is not an object.
pub open spec fn model_get(m: JsonModel, key: Seq<char>) -> Option<JsonModel> {
    match m {
        JsonModel::Object(entries) => if entries.contains_key(key) {
            Some(entries[key])
        } else {
            None
        },
        _ => None,
    }
}

/// The element `index` of a list; `None` past its end and for anything that
/// is not a list.
pub open spec fn model_at(m: JsonModel, index: int) -> Option<JsonModel> {
    match m {
        JsonModel::List(items) => if 0 <= index < items.len() {
            Some(items[index])
        } else {
            None
        },
        _ => None,
    }
}

/// The text of a JSON string; `None` for anything else.
pub open spec fn model_text(m: JsonModel) -> Option<Seq<char>> {
    match m {
        JsonModel::Text(s) => Some(s),
        _ => None,
    }
}

/// The value of a non-negative JSON integer; `None` for anything else.
pub open spec fn model_unsigned(m: JsonModel) -> Option<u64> {
    match m {
        JsonModel::Number(NumberModel::Unsigned(n)) => Some(n),
        _ => None,
    }
}

/// The content of each value of a sequence.
pub open spec fn list_models(items: Seq<serde_json::Value>) -> Seq<JsonModel> {
    Seq::new(items.len(), |i: int| json_model(items[i]))
}

/// The content behind an optional reference.
pub open spec fn ref_model(r: Option<&serde_json::Value>) -> Option<JsonModel> {
    match r {
        Some(v) => Some(json_model(*v)),
        None => None,
    }
}

/// The view behind an optional string slice.
pub open spec fn ref_text(r: Option<&str>) -> Option<Seq<char>> {
    match r {
        Some(s) => Some(s@),
        None => None,
    }
}

/// `serde_json::Value::Null`.
#[verifier::external_body]
pub(crate) fn json_null() -> (r: serde_json::Value)
    ensures
        json_model(r) == JsonModel::Null,
{
    serde_json::Value::Null
}

/// `serde_json::Value::Bool`.
#[verifier::external_body]
pub(crate) fn json_bool(b: bool) -> (r: serde_json::Value)
    ensures
        json_model(r) == JsonModel::Bool(b),
{
    serde_json::Value::Bool(b)
}

/// `serde_json::Value::String`.
#[verifier::external_body]
pub(crate) fn json_text(s: String) -> (r: serde_json::Value)
    ensures
        json_model(r) == JsonModel::Text(s@),
{
    serde_json::Value::String(s)
}

/// `serde_json::Value::from` on a `u64`: the number that `as_u64` gives back.
#[verifier::external_body]
pub(crate) fn json_unsigned(n: u64) -> (r: serde_json::Value)
    ensures
        json_model(r) == JsonModel::Number(NumberModel::Unsigned(n)),
{
    serde_json::Value::from(n)
}

/// `serde_json::Value::Array`.
#[verifier::external_body]
pub(crate) fn json_list(items: Vec<serde_json::Value>) -> (r: serde_json::Value)
    ensures
        json_model(r) == JsonModel::List(list_models(items@)),
{
    serde_json::Value::Array(items)
}

/// `serde_json::Value::Object`.
#[verifier::external_body]
pub(crate) fn json_object(m: serde_json::Map<String, serde_json::Value>) -> (r: serde_json::Value)
    ensures
        json_model(r) == JsonModel::Object(object_entries(m)),
{
    serde_json::Value::Object(m)
}

/// `Clone::clone` of a `serde_json::Value`: a value with the same content.
#[verifier::external_body]
pub(crate) fn json_clone(v: &serde_json::Value) -> (r: serde_json::Value)
    ensures
        json_model(r) == json_model(*v),
{
    v.clone()
}

/// `serde_json::Value::is_null`.
#[verifier::external_body]
pub(crate) fn json_is_null(v: &serde_json::Value) -> (r: bool)
    ensures
        r == (json_model(*v) is Null),
{
    v.is_null()
}

/// `serde_json::Value::get` with a string: the member of that name where the
/// value is an object that has it, else `None`.
#[verifier::external_body]
pub(crate) fn json_get<'a>(v: &'a serde_json::Value, key: &str) -> (r: Option<&'a serde_json::Value>)
    ensures
        ref_model(r) == model_get(json_model(*v), key@),
{
    v.get(key)
}

/// `serde_json::Value::get` with a `usize`: the element at that index where
/// the value is an array that long, else `None`.
#[verifier::external_body]
pub(crate) fn json_at<'a>(v: &'a serde_json::Value, index: usize) -> (r: Option<&'a serde_json::Value>)
    ensures
        ref_model(r) == model_at(json_model(*v), index as int),
{
    v.get(index)
}

/// `serde_json::Value::as_str`: the text of a JSON string, else `None`.
#[verifier::external_body]
pub(crate) fn json_as_str<'a>(v: &'a serde_json::Value) -> (r: Option<&'a str>)
    ensures
        ref_text(r) == model_text(json_model(*v)),
{
    v.as_str()
}

/// `serde_json::Value::as_u64`: the value of a non-negative integer, else
/// `None`.
#[verifier::external_body]
pub(crate) fn json_as_u64(v: &serde_json::Value) -> (r: Option<u64>)
    ensures
        r == model_unsigned(json_model(*v)),
{
    v.as_u64()
}

/// `serde_json::Value::as_array`: the elements of a JSON array, else `None`.
#[verifier::external_body]
pub(crate) fn json_as_list<'a>(v: &'a serde_json::Value) -> (r: Option<&'a Vec<serde_json::Value>>)
    ensures
        match r {
            Some(items) => json_model(*v) == JsonModel::List(list_models(items@)),
            None => !(json_model(*v) is List),
        },
{
    v.as_array()
}

/// `serde_json::Value::as_object`: the map of a JSON object, else `None`.
#[verifier::external_body]
pub(crate) fn json_as_object<'a>(v: &'a serde_json::Value) -> (r: Option<&'a serde_json::Map<String, serde_json::Value>>)
    ensures
        match r {
            Some(m) => json_model(*v) == JsonModel::Object(object_entries(*m)),
            None => !(json_model(*v) is Object),
        },
{
    v.as_object()
}

/// `serde_json::Map::new`: a map without entries.
#[verifier::external_body]
pub(crate) fn object_new() -> (r: serde_json::Map<String, serde_json::Value>)
    ensures
        object_entries(r) == no_entries(),
{
    serde_json::Map::new()
}

/// `serde_json::Map::insert`: the map then holds `v` under `k`, and every
/// other entry as before.
#[verifier::external_body]
pub(crate) fn object_insert(
    m: &mut serde_json::Map<String, serde_json::Value>,
    k: String,
    v: serde_json::Value,
)
    ensures
        object_entries(*final(m)) == object_entries(*old(m)).insert(k@, json_model(v)),
{
    m.insert(k, v);
}

/// `serde_json::Map::len`: the number of entries, which is finite.
#[verifier::external_body]
pub(crate) fn object_len(m: &serde_json::Map<String, serde_json::Value>) -> (r: usize)
    ensures
        has_size(object_entries(*m), r as nat),
{
    m.len()
}

/// The first item of `serde_json::Map::iter`: some entry of the map, or `None`
/// where the map has no entry.
#[verifier::external_body]
pub(crate) fn object_first<'a>(m: &'a serde_json::Map<String, serde_json::Value>) -> (r: Option<(&'a String, &'a serde_json::Value)>)
    ensures
        match r {
            Some(entry) => model_get(JsonModel::Object(object_entries(*m)), entry.0@) == Some(
                json_model(*entry.1),
            ),
            None => object_entries(*m) == no_entries(),
        },
{
    m.iter().next()
}

/// `Clone::clone` of a `serde_json::Map`: a map with the same entries.
#[verifier::external_body]
pub(crate) fn object_clone(m: &serde_json::Map<String, serde_json::Value>) -> (r: serde_json::Map<String, serde_json::Value>)
    ensures
        object_entries(r) == object_entries(*m),
{
    m.clone()
}

/// `serde_json::from_slice` at type `Value`: the document that the bytes
/// spell, or the error with which `serde_json` rejects them.
#[verifier::external_body]
pub(crate) fn json_from_slice(bytes: &[u8]) -> (r: Result<serde_json::Value, serde_json::Error>)
    ensures
        match r {
            Ok(v) => json_of_bytes(bytes@) == Some(json_model(v)),
            Err(_) => json_of_bytes(bytes@) is None,
        },
{
    serde_json::from_slice::<serde_json::Value>(bytes)
}

/// The text that `serde_json::Error` displays; nothing is claimed of it.
#[verifier::external_body]
pub(crate) fn json_error_text(e: &serde_json::Error) -> (r: String) {
    e.to_string()
}

} // verus!
