//! Records as trees of JSON data, and the calls into `serde_json` that read and build them.
//!
//! A record is a `serde_json::Value`. The verifier sees no inside of it, so
//! what a value holds is spoken of through `tree_of`, and each call into
//! `serde_json` states its effect over that model.

use vstd::prelude::*;

verus! {

#[verifier::external_type_specification]
#[verifier::external_body]
pub struct ExValue(serde_json::Value);

#[verifier::external_type_specification]
#[verifier::external_body]
#[verifier::reject_recursive_types(K)]
#[verifier::reject_recursive_types(V)]
pub struct ExMap<K, V>(serde_json::Map<K, V>);

#[verifier::external_type_specification]
#[verifier::external_body]
pub struct ExError(serde_json::Error);

/// What a JSON value holds. The fields of an object stand in their order.
pub enum Tree {
    Null,
    Bool(bool),
    /// A number, by its JSON text.
    Number(Seq<char>),
    Text(Seq<char>),
    List(Seq<Tree>),
    Object(Fields),
}

/// The fields of an object: each name with its value, in their order.
pub type Fields = Seq<(Seq<char>, Tree)>;

/// What a value holds.
pub uninterp spec fn tree_of(v: serde_json::Value) -> Tree;

/// The fields of an object, in their order.
pub uninterp spec fn fields_of(m: serde_json::Map<String, serde_json::Value>) -> Seq<
    (Seq<char>, Tree),
>;

/// The compact JSON text of a value, where `serde_json` produces one.
pub uninterp spec fn json_text(j: Tree) -> Option<Seq<char>>;

/// The indented JSON text of a list of values, where `serde_json` produces one.
pub uninterp spec fn json_pretty(items: Seq<Tree>) -> Option<Seq<char>>;

/// The value that a JSON text stands for, where it is one.
pub uninterp spec fn json_parsed(text: Seq<char>) -> Option<Tree>;

/// What each of a sequence of values holds.
pub open spec fn items_of(values: Seq<serde_json::Value>) -> Seq<Tree> {
    values.map_values(|v: serde_json::Value| tree_of(v))
}

/// The names of the fields, in their order.
pub open spec fn field_names(fields: Fields) -> Seq<Seq<char>> {
    fields.map_values(|f: (Seq<char>, Tree)| f.0)
}

/// The value of the first field named `key`.
pub open spec fn lookup(fields: Fields, key: Seq<char>) -> Option<Tree>
    decreases fields.len(),
{
    if fields.len() == 0 {
        None
    } else if fields[0].0 == key {
        Some(fields[0].1)
    } else {
        lookup(fields.drop_first(), key)
    }
}

/// The fields after `key` is set to `value`: a field of that name keeps its
/// place and takes the value, a new name goes to the end.
pub open spec fn with_field(fields: Fields, key: Seq<char>, value: Tree) -> Fields
    decreases fields.len(),
{
    if fields.len() == 0 {
        seq![(key, value)]
    } else if fields[0].0 == key {
        seq![(key, value)] + fields.drop_first()
    } else {
        seq![fields[0]] + with_field(fields.drop_first(), key, value)
    }
}

/// `Value::as_array`: the elements of an array, and `None` for any other value.
#[verifier::external_body]
pub(crate) fn as_array(v: &serde_json::Value) -> (r: Option<&Vec<serde_json::Value>>)
    ensures
        match tree_of(*v) {
            Tree::List(items) => r is Some && items_of(r.unwrap()@) == items,
            _ => r is None,
        },
{
    v.as_array()
}

/// `Value::as_object`: the map of an object, and `None` for any other
/// value. No two fields of a map have one name.
#[verifier::external_body]
pub(crate) fn as_object(v: &serde_json::Value) -> (r: Option<
    &serde_json::Map<String, serde_json::Value>,
>)
    ensures
        match tree_of(*v) {
            Tree::Object(fields) => r is Some && fields_of(*r.unwrap()) == fields,
            _ => r is None,
        },
        r is Some ==> field_names(fields_of(*r.unwrap())).no_duplicates(),
{
    v.as_object()
}

/// `Value::as_str`: the text of a string, and `None` for any other value.
#[verifier::external_body]
pub(crate) fn as_str(v: &serde_json::Value) -> (r: Option<&str>)
    ensures
        match tree_of(*v) {
            Tree::Text(text) => r is Some && r.unwrap()@ == text,
            _ => r is None,
        },
{
    v.as_str()
}

/// `Map::new`: a map without fields.
#[verifier::external_body]
pub(crate) fn map_new() -> (m: serde_json::Map<String, serde_json::Value>)
    ensures
        fields_of(m) == Seq::<(Seq<char>, Tree)>::empty(),
        field_names(fields_of(m)).no_duplicates(),
{
    serde_json::Map::new()
}

/// `Map::insert`: sets a field. A field of that name keeps its place in the
/// order and takes the new value; a new name is added as the last field. No
/// two fields of the map have one name, before or after.
#[verifier::external_body]
pub(crate) fn map_insert(
    m: &mut serde_json::Map<String, serde_json::Value>,
    key: String,
    value: serde_json::Value,
)
    ensures
        fields_of(*final(m)) == with_field(fields_of(*old(m)), key@, tree_of(value)),
        field_names(fields_of(*final(m))).no_duplicates(),
{
    m.insert(key, value);
}

/// `Map::len`: the number of fields.
#[verifier::external_body]
pub(crate) fn map_len(m: &serde_json::Map<String, serde_json::Value>) -> (n: usize)
    ensures
        n == fields_of(*m).len(),
{
    m.len()
}

/// `Map::keys`: the names of the fields, in their order.
#[verifier::external_body]
pub(crate) fn map_keys(m: &serde_json::Map<String, serde_json::Value>) -> (keys: Vec<String>)
    ensures
        keys@.map_values(|k: String| k@) == field_names(fields_of(*m)),
{
    m.keys().cloned().collect()
}

/// `Map::get`: the value of the field named `key`, where there is one.
#[verifier::external_body]
pub(crate) fn map_get<'a>(m: &'a serde_json::Map<String, serde_json::Value>, key: &str) -> (r:
    Option<&'a serde_json::Value>)
    ensures
        match r {
            Some(v) => lookup(fields_of(*m), key@) == Some(tree_of(*v)),
            None => lookup(fields_of(*m), key@) is None,
        },
{
    m.get(key)
}

/// `Value::String`: the string value with this text.
#[verifier::external_body]
pub(crate) fn value_from_string(text: String) -> (v: serde_json::Value)
    ensures
        tree_of(v) == Tree::Text(text@),
{
    serde_json::Value::String(text)
}

/// `Value::Object`: the object with the fields of this map.
#[verifier::external_body]
pub(crate) fn value_from_map(m: serde_json::Map<String, serde_json::Value>) -> (v:
    serde_json::Value)
    ensures
        tree_of(v) == Tree::Object(fields_of(m)),
{
    serde_json::Value::Object(m)
}

/// `Value::Array`: the array with these elements.
#[verifier::external_body]
pub(crate) fn value_from_vec(items: Vec<serde_json::Value>) -> (v: serde_json::Value)
    ensures
        tree_of(v) == Tree::List(items_of(items@)),
{
    serde_json::Value::Array(items)
}

/// `Value::clone`: a value that holds the same.
#[verifier::external_body]
pub(crate) fn value_clone(v: &serde_json::Value) -> (r: serde_json::Value)
    ensures
        tree_of(r) == tree_of(*v),
{
    v.clone()
}

/// `serde_json::to_string`: the compact JSON text of a value. The text
/// depends on what the value holds and on nothing else.
#[verifier::external_body]
pub(crate) fn to_text(v: &serde_json::Value) -> (r: Result<String, serde_json::Error>)
    ensures
        match r {
            Ok(text) => json_text(tree_of(*v)) == Some(text@),
            Err(_) => json_text(tree_of(*v)) is None,
        },
{
    serde_json::to_string(v)
}

/// `serde_json::to_string_pretty`: the indented JSON text of a list of
/// values. The text depends on what the values hold and on nothing else.
#[verifier::external_body]
pub(crate) fn to_pretty(values: &Vec<serde_json::Value>) -> (r: Result<String, serde_json::Error>)
    ensures
        match r {
            Ok(text) => json_pretty(items_of(values@)) == Some(text@),
            Err(_) => json_pretty(items_of(values@)) is None,
        },
{
    serde_json::to_string_pretty(values)
}

/// `serde_json::from_str`: the value that a JSON text stands for, or an error
/// where the text is not JSON. The outcome depends on the text alone.
#[verifier::external_body]
pub(crate) fn parse_text(text: &str) -> (r: Result<serde_json::Value, serde_json::Error>)
    ensures
        match r {
            Ok(v) => json_parsed(text@) == Some(tree_of(v)),
            Err(_) => json_parsed(text@) is None,
        },
{
    serde_json::from_str(text)
}

/// The message of a `serde_json::Error`, as its `Display` writes it.
#[verifier::external_body]
pub(crate) fn error_text(e: &serde_json::Error) -> (text: String) {
    e.to_string()
}

} // verus!
