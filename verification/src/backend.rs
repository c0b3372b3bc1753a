//! The JSON backend: `serde_json`'s value types and the calls made into them.
//!
//! Nothing in this file is proved. Each item states, over the model of
//! `crate::tree`, what `serde_json` does; the rest of the crate is proved
//! from these statements. They hold of `serde_json` built without its
//! `preserve_order` and `arbitrary_precision` features: its objects are then
//! B-tree maps, which keep one value per key and walk their keys in
//! ascending order.

use vstd::prelude::*;
use vstd::utf8::encode_utf8;
use crate::tree::Tree;

verus! {

/// `serde_json::Value`, a JSON document in memory.
#[verifier::external_type_specification]
#[verifier::external_body]
pub struct ExValue(serde_json::Value);

/// `serde_json::Map`, the key-value store inside a JSON object.
#[verifier::external_type_specification]
#[verifier::external_body]
#[verifier::reject_recursive_types(K)]
#[verifier::reject_recursive_types(V)]
pub struct ExMap<K, V>(serde_json::Map<K, V>);

/// `serde_json::Error`, the failure that a conversion or a write reports.
#[verifier::external_type_specification]
#[verifier::external_body]
pub struct ExError(serde_json::Error);

/// The document that a `serde_json::Value` holds.
pub uninterp spec fn value_tree(value: serde_json::Value) -> Tree;

/// The documents that a sequence of values holds, in its order.
pub open spec fn value_trees(values: Seq<serde_json::Value>) -> Seq<Tree> {
    Seq::new(values.len(), |i: int| value_tree(values[i]))
}

/// The entries that a `serde_json::Map` holds, by key.
pub uninterp spec fn map_entries(store: serde_json::Map<String, serde_json::Value>) -> Map<
    Seq<char>,
    Tree,
>;

/// The text that `serde_json` writes for a document in its compact form:
/// no whitespace, and the keys of every object in ascending order.
pub uninterp spec fn compact_json(tree: Tree) -> Seq<char>;

/// Builds `serde_json::Value::Null`, which holds the JSON null.
#[verifier::external_body]
pub(crate) fn null_value() -> (value: serde_json::Value)
    ensures
        value_tree(value) == Tree::Null,
{
    serde_json::Value::Null
}

/// Builds `serde_json::Value::Bool`, which holds the given boolean.
#[verifier::external_body]
pub(crate) fn bool_value(b: bool) -> (value: serde_json::Value)
    ensures
        value_tree(value) == Tree::Bool(b),
{
    serde_json::Value::Bool(b)
}

/// Calls `serde_json::to_value` on a 128-bit integer. It yields a number
/// holding `n` where `n` fits in a `u64` or in an `i64`, and its
/// "number out of range" error for every other `n`.
#[verifier::external_body]
pub(crate) fn integer_value(n: i128) -> (converted: Result<serde_json::Value, serde_json::Error>)
    ensures
        converted is Ok <==> i64::MIN <= n <= u64::MAX,
        converted matches Ok(value) ==> value_tree(value) == Tree::Number(n as int),
{
    serde_json::to_value(n)
}

/// Builds `serde_json::Value::String`, which holds the given text.
#[verifier::external_body]
pub(crate) fn text_value(text: String) -> (value: serde_json::Value)
    ensures
        value_tree(value) == Tree::Text(text@),
{
    serde_json::Value::String(text)
}

/// Builds `serde_json::Value::Array`, which holds the given documents in
/// the order given.
#[verifier::external_body]
pub(crate) fn sequence_value(items: Vec<serde_json::Value>) -> (value: serde_json::Value)
    ensures
        value_tree(value) == Tree::Sequence(value_trees(items@)),
{
    serde_json::Value::Array(items)
}

/// Calls `serde_json::Map::new`, which makes a map without entries.
#[verifier::external_body]
pub(crate) fn empty_map() -> (store: serde_json::Map<String, serde_json::Value>)
    ensures
        map_entries(store) == (Map::<Seq<char>, Tree>::empty()),
{
    serde_json::Map::new()
}

/// Calls `serde_json::Map::insert`. The map then holds `value` under `key`,
/// in place of what it held under that key before, and its other entries
/// are unchanged.
#[verifier::external_body]
pub(crate) fn map_insert(
    store: &mut serde_json::Map<String, serde_json::Value>,
    key: String,
    value: serde_json::Value,
)
    ensures
        map_entries(*final(store)) == map_entries(*old(store)).insert(key@, value_tree(value)),
{
    store.insert(key, value);
}

/// Builds `serde_json::Value::Object`, which holds the entries of the map.
#[verifier::external_body]
pub(crate) fn mapping_value(store: serde_json::Map<String, serde_json::Value>) -> (value:
    serde_json::Value)
    ensures
        value_tree(value) == Tree::Mapping(map_entries(store)),
{
    serde_json::Value::Object(store)
}

/// Calls `to_string` on a `serde_json::Value`, which formats it through
/// `serde_json::to_writer`: the result is the compact text of the document.
#[verifier::external_body]
pub(crate) fn render(value: &serde_json::Value) -> (text: String)
    ensures
        text@ == compact_json(value_tree(*value)),
{
    value.to_string()
}

/// Calls `serde_json::to_writer` with a byte vector as the writer. It
/// succeeds, and has then appended the compact text of the document,
/// encoded as UTF-8, and nothing else.
///
/// `serde_json`'s serializer reports a failure only where the writer fails
/// or where the serialized type's own `Serialize` fails. That of
/// `serde_json::Value` hands over nulls, booleans, numbers, strings,
/// sequences and maps with string keys, and fails on none of them; a byte
/// vector takes every write, by appending.
#[verifier::external_body]
pub(crate) fn render_into(sink: &mut Vec<u8>, value: &serde_json::Value) -> (written: Result<
    (),
    serde_json::Error,
>)
    ensures
        written is Ok,
        final(sink)@ == old(sink)@ + encode_utf8(compact_json(value_tree(*value))),
{
    serde_json::to_writer(sink, value)
}

} // verus!
