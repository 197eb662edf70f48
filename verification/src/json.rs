//! JSON documents.

use vstd::prelude::*;

verus! {

/// A JSON document as a mathematical value.
pub enum Json {
    Null,
    Bool(bool),
    Number(nat),
    Text(Seq<char>),
    Array(Seq<Json>),
    Object(Map<Seq<char>, Json>),
}

/// The type of JSON documents, `serde_json::Value`.
#[verifier::external_type_specification]
#[verifier::external_body]
pub struct ExValue(serde_json::Value);

/// The type of JSON objects, `serde_json::Map`.
#[verifier::external_type_specification]
#[verifier::external_body]
#[verifier::reject_recursive_types(K)]
#[verifier::reject_recursive_types(V)]
pub struct ExMap<K, V>(serde_json::Map<K, V>);

/// What a JSON document holds.
pub uninterp spec fn json_of(value: serde_json::Value) -> Json;

/// What a JSON object holds.
pub uninterp spec fn entries_of(map: serde_json::Map<String, serde_json::Value>) -> Map<Seq<char>, Json>;

/// What `to_string` of a JSON document gives.
pub uninterp spec fn json_text(value: Json) -> Seq<char>;

/// `serde_json::Value::String`: the document that is a text.
#[verifier::external_body]
pub(crate) fn text_value(text: String) -> (r: serde_json::Value)
    ensures
        json_of(r) == Json::Text(text@),
{
    serde_json::Value::String(text)
}

/// `serde_json::Value::from` a number: the document that is the number.
#[verifier::external_body]
pub(crate) fn number_value(number: u64) -> (r: serde_json::Value)
    ensures
        json_of(r) == Json::Number(number as nat),
{
    serde_json::Value::from(number)
}

/// `serde_json::Value::Bool`: the document that is a truth value.
#[verifier::external_body]
pub(crate) fn bool_value(truth: bool) -> (r: serde_json::Value)
    ensures
        json_of(r) == Json::Bool(truth),
{
    serde_json::Value::Bool(truth)
}

/// `serde_json::Value::Null`: the document without a value.
#[verifier::external_body]
pub(crate) fn null_value() -> (r: serde_json::Value)
    ensures
        json_of(r) == Json::Null,
{
    serde_json::Value::Null
}

/// What each of a row of documents holds.
pub open spec fn all_json(values: Seq<serde_json::Value>) -> Seq<Json> {
    values.map_values(|value: serde_json::Value| json_of(value))
}

/// `serde_json::Value::Array`: the document that is a row of documents.
#[verifier::external_body]
pub(crate) fn array_value(items: Vec<serde_json::Value>) -> (r: serde_json::Value)
    ensures
        json_of(r) == Json::Array(all_json(items@)),
{
    serde_json::Value::Array(items)
}

/// `serde_json::Value::Object`: the document that is an object.
#[verifier::external_body]
pub(crate) fn object_value(map: serde_json::Map<String, serde_json::Value>) -> (r: serde_json::Value)
    ensures
        json_of(r) == Json::Object(entries_of(map)),
{
    serde_json::Value::Object(map)
}

/// No entries.
pub open spec fn no_entries() -> Map<Seq<char>, Json> {
    Map::empty()
}

/// `serde_json::Map::new`: the object without entries.
#[verifier::external_body]
pub(crate) fn new_map() -> (r: serde_json::Map<String, serde_json::Value>)
    ensures
        entries_of(r) == no_entries(),
{
    serde_json::Map::new()
}

/// `serde_json::Map::insert`: puts a value under a key, in place of what stood there.
#[verifier::external_body]
pub(crate) fn insert(
    map: &mut serde_json::Map<String, serde_json::Value>,
    key: String,
    value: serde_json::Value,
)
    ensures
        entries_of(*final(map)) == entries_of(*old(map)).insert(key@, json_of(value)),
{
    map.insert(key, value);
}

/// `serde_json::Map::append`: takes over every entry of `other`, in place of what stood there.
#[verifier::external_body]
pub(crate) fn append(
    map: &mut serde_json::Map<String, serde_json::Value>,
    other: serde_json::Map<String, serde_json::Value>,
)
    ensures
        entries_of(*final(map)) == entries_of(*old(map)).union_prefer_right(entries_of(other)),
{
    let mut other = other;
    map.append(&mut other);
}

/// `to_string` of a `serde_json::Value`: the document in JSON notation without white space, which
/// depends on nothing but what the document holds. What the notation is is left to the name.
#[verifier::external_body]
pub(crate) fn value_text(value: &serde_json::Value) -> (r: String)
    ensures
        r@ == json_text(json_of(*value)),
{
    value.to_string()
}

} // verus!
