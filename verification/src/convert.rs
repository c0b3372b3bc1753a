//! The conversion of a value to the backend's representation.

use vstd::prelude::*;
use crate::backend::{
    bool_value, empty_map, integer_value, map_entries, map_insert, mapping_value, null_value,
    sequence_value, text_value, value_tree, value_trees,
};
use crate::node::{mapping_tree, sequence_trees, Node};

verus! {

/// Converts a value to the backend's representation of its document. A
/// mapping is entered into the backend's map entry by entry, in the order
/// listed, so the result no longer depends on that order.
///
/// Fails exactly on a value that is not convertible, with the backend's
/// failure for the first integer, in the order listed, that no JSON number
/// can hold.
pub fn to_value(node: &Node) -> (converted: Result<serde_json::Value, serde_json::Error>)
    ensures
        converted is Ok <==> node.convertible(),
        converted matches Ok(value) ==> value_tree(value) == node.tree(),
    decreases node,
{
    match node {
        Node::Null => Ok(null_value()),
        Node::Bool(b) => Ok(bool_value(*b)),
        Node::Integer(n) => integer_value(*n),
        Node::Text(text) => Ok(text_value(text.clone())),
        Node::Sequence(items) => match sequence_to_values(items) {
            Ok(values) => Ok(sequence_value(values)),
            Err(error) => Err(error),
        },
        Node::Mapping(entries) => match mapping_to_map(entries) {
            Ok(store) => Ok(mapping_value(store)),
            Err(error) => Err(error),
        },
    }
}

/// Converts the items of a sequence, in their order.
fn sequence_to_values(items: &Vec<Node>) -> (converted: Result<
    Vec<serde_json::Value>,
    serde_json::Error,
>)
    ensures
        converted is Ok <==> (forall|i: int|
            0 <= i < items@.len() ==> (#[trigger] items@[i]).convertible()),
        converted matches Ok(values) ==> value_trees(values@) == sequence_trees(items@),
    decreases items,
{
    let mut values: Vec<serde_json::Value> = Vec::new();
    let mut done: usize = 0;
    while done < items.len()
        invariant
            done <= items.len(),
            forall|i: int| 0 <= i < done ==> (#[trigger] items@[i]).convertible(),
            value_trees(values@) == sequence_trees(items@.take(done as int)),
        decreases items.len() - done,
    {
        match to_value(&items[done]) {
            Ok(value) => {
                proof {
                    assert(items@.take(done + 1).drop_last() == items@.take(done as int));
                    assert(value_trees(values@.push(value)) == value_trees(values@).push(
                        value_tree(value),
                    ));
                }
                values.push(value);
            },
            Err(error) => {
                return Err(error);
            },
        }
        done += 1;
    }
    proof {
        assert(items@.take(done as int) == items@);
    }
    Ok(values)
}

/// Enters the entries of a mapping into a map of the backend, in their
/// order.
fn mapping_to_map(entries: &Vec<(String, Node)>) -> (converted: Result<
    serde_json::Map<String, serde_json::Value>,
    serde_json::Error,
>)
    ensures
        converted is Ok <==> (forall|i: int|
            0 <= i < entries@.len() ==> (#[trigger] entries@[i]).1.convertible()),
        converted matches Ok(store) ==> map_entries(store) == mapping_tree(entries@),
    decreases entries,
{
    let mut store = empty_map();
    let mut done: usize = 0;
    while done < entries.len()
        invariant
            done <= entries.len(),
            forall|i: int| 0 <= i < done ==> (#[trigger] entries@[i]).1.convertible(),
            map_entries(store) == mapping_tree(entries@.take(done as int)),
        decreases entries.len() - done,
    {
        let entry = &entries[done];
        match to_value(&entry.1) {
            Ok(value) => {
                proof {
                    assert(entries@.take(done + 1).drop_last() == entries@.take(done as int));
                }
                map_insert(&mut store, entry.0.clone(), value);
            },
            Err(error) => {
                return Err(error);
            },
        }
        done += 1;
    }
    proof {
        assert(entries@.take(done as int) == entries@);
    }
    Ok(store)
}

} // verus!
