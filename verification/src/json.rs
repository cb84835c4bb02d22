//! JSON documents, made with `serde_json`.

use vstd::prelude::*;

verus! {

/// A JSON document, as far as this library makes them.
pub enum Json {
    Text(Seq<char>),
    Number(nat),
    Flag(bool),
    Object(Map<Seq<char>, Json>),
}

#[verifier::external_type_specification]
#[verifier::external_body]
pub struct ExValue(serde_json::Value);

#[verifier::external_type_specification]
#[verifier::external_body]
#[verifier::reject_recursive_types(K)]
#[verifier::reject_recursive_types(V)]
pub struct ExMap<K, V>(serde_json::Map<K, V>);

/// The document that a value holds.
pub uninterp spec fn json_of(v: serde_json::Value) -> Json;

/// The fields that an object under construction holds.
pub uninterp spec fn fields_of(m: serde_json::Map<String, serde_json::Value>) -> Map<Seq<char>, Json>;

/// An object without fields.
pub open spec fn no_fields() -> Map<Seq<char>, Json> {
    Map::empty()
}

/// The text that `serde_json` writes for a document: compact JSON, with the fields
/// of an object in the order of their names. `serde_json` keeps no other order as
/// long as its feature `preserve_order` is off; with it on, the text would depend on
/// the order in which the fields were set, and not on the document alone.
pub uninterp spec fn json_text(j: Json) -> Seq<char>;

/// `Value::from(&str)` holds the string.
#[verifier::external_body]
pub(crate) fn text_value(s: &str) -> (v: serde_json::Value)
    ensures
        json_of(v) == Json::Text(s@),
{
    serde_json::Value::from(s)
}

/// `Value::from(u32)` holds the number.
#[verifier::external_body]
pub(crate) fn number_value(n: u32) -> (v: serde_json::Value)
    ensures
        json_of(v) == Json::Number(n as nat),
{
    serde_json::Value::from(n)
}

/// `Value::from(bool)` holds the flag.
#[verifier::external_body]
pub(crate) fn flag_value(b: bool) -> (v: serde_json::Value)
    ensures
        json_of(v) == Json::Flag(b),
{
    serde_json::Value::from(b)
}

/// `Map::new` holds no field.
#[verifier::external_body]
pub(crate) fn new_object() -> (m: serde_json::Map<String, serde_json::Value>)
    ensures
        fields_of(m) == no_fields(),
{
    serde_json::Map::new()
}

/// `Map::insert` sets a field, in place of one that had the same name, and leaves
/// the others.
#[verifier::external_body]
pub(crate) fn set_field(
    m: &mut serde_json::Map<String, serde_json::Value>,
    name: &str,
    v: serde_json::Value,
)
    ensures
        fields_of(*final(m)) == fields_of(*old(m)).insert(name@, json_of(v)),
{
    m.insert(name.to_owned(), v);
}

/// `Value::from(Map)` holds an object with these fields.
#[verifier::external_body]
pub(crate) fn object_value(m: serde_json::Map<String, serde_json::Value>) -> (v: serde_json::Value)
    ensures
        json_of(v) == Json::Object(fields_of(m)),
{
    serde_json::Value::from(m)
}

/// `Value::to_string` writes the document as compact JSON, which depends on the
/// document alone: an object's fields are written in the order of their names, as
/// long as `serde_json` is built without its feature `preserve_order`.
#[verifier::external_body]
pub(crate) fn value_text(v: &serde_json::Value) -> (s: String)
    ensures
        s@ == json_text(json_of(*v)),
{
    v.to_string()
}

} // verus!
