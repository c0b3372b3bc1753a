//! The values that can be rendered, as their owner lists them.

use vstd::prelude::*;
use crate::tree::Tree;

verus! {

/// A value to render. A mapping holds its entries in the order in which the
/// owner listed them; a key may occur more than once, and the last
/// occurrence then counts.
#[derive(Debug)]
pub enum Node {
    Null,
    Bool(bool),
    Integer(i128),
    Text(String),
    Sequence(Vec<Node>),
    Mapping(Vec<(String, Node)>),
}

/// The documents of `items`, in the order of `items`.
pub open spec fn sequence_trees(items: Seq<Node>) -> Seq<Tree>
    decreases items,
{
    if items.len() == 0 {
        Seq::empty()
    } else {
        sequence_trees(items.drop_last()).push(items.last().tree())
    }
}

/// The mapping that results from entering `entries` one after the other:
/// a later entry replaces an earlier one with the same key.
pub open spec fn mapping_tree(entries: Seq<(String, Node)>) -> Map<Seq<char>, Tree>
    decreases entries,
{
    if entries.len() == 0 {
        Map::empty()
    } else {
        mapping_tree(entries.drop_last()).insert(entries.last().0@, entries.last().1.tree())
    }
}

/// The place of the last entry of `entries` with the key `key`, or -1 where
/// no entry has that key.
pub open spec fn last_index_of(entries: Seq<(String, Node)>, key: Seq<char>) -> int
    decreases entries.len(),
{
    if entries.len() == 0 {
        -1
    } else if entries.last().0@ == key {
        entries.len() - 1
    } else {
        last_index_of(entries.drop_last(), key)
    }
}

/// `sequence_trees` keeps the length and the order: the document at each
/// place is the document of the item at that place.
pub proof fn sequence_trees_by_index(items: Seq<Node>)
    ensures
        sequence_trees(items).len() == items.len(),
        forall|i: int|
            0 <= i < items.len() ==> sequence_trees(items)[i] == (#[trigger] items[i]).tree(),
    decreases items.len(),
{
    if items.len() > 0 {
        let front = items.drop_last();
        sequence_trees_by_index(front);
        assert forall|i: int| 0 <= i < items.len() implies sequence_trees(items)[i] == (
        #[trigger] items[i]).tree() by {
            if i < front.len() {
                assert(front[i] == items[i]);
            }
        }
    }
}

/// `last_index_of` finds an entry with the key, and none with that key
/// comes after it.
pub proof fn last_index_of_is_last(entries: Seq<(String, Node)>, key: Seq<char>)
    ensures
        -1 <= last_index_of(entries, key) < entries.len(),
        last_index_of(entries, key) >= 0 ==> entries[last_index_of(entries, key)].0@ == key,
        forall|i: int|
            last_index_of(entries, key) < i < entries.len() ==> (#[trigger] entries[i]).0@ != key,
    decreases entries.len(),
{
    if entries.len() > 0 && entries.last().0@ != key {
        let front = entries.drop_last();
        last_index_of_is_last(front, key);
        assert forall|i: int| last_index_of(entries, key) < i < entries.len() implies (
        #[trigger] entries[i]).0@ != key by {
            if i < front.len() {
                assert(front[i] == entries[i]);
            }
        }
    }
}

/// `mapping_tree` holds exactly the keys that occur in `entries`, each with
/// the document of the last entry that has it.
pub proof fn mapping_tree_by_key(entries: Seq<(String, Node)>, key: Seq<char>)
    ensures
        mapping_tree(entries).dom().contains(key) <==> last_index_of(entries, key) >= 0,
        last_index_of(entries, key) >= 0 ==> mapping_tree(entries)[key]
            == entries[last_index_of(entries, key)].1.tree(),
    decreases entries.len(),
{
    if entries.len() > 0 {
        let front = entries.drop_last();
        mapping_tree_by_key(front, key);
        last_index_of_is_last(front, key);
        if entries.last().0@ != key && last_index_of(front, key) >= 0 {
            assert(front[last_index_of(front, key)] == entries[last_index_of(front, key)]);
        }
    }
}

impl Node {
    /// The document that this value denotes.
    pub open spec fn tree(self) -> Tree
        decreases self,
    {
        match self {
            Node::Null => Tree::Null,
            Node::Bool(b) => Tree::Bool(b),
            Node::Integer(n) => Tree::Number(n as int),
            Node::Text(s) => Tree::Text(s@),
            Node::Sequence(items) => Tree::Sequence(sequence_trees(items@)),
            Node::Mapping(entries) => Tree::Mapping(mapping_tree(entries@)),
        }
    }

    /// Whether every integer in this value, at any depth, is one that a JSON
    /// number can hold: at least `i64::MIN` and at most `u64::MAX`.
    pub open spec fn convertible(self) -> bool
        decreases self,
    {
        match self {
            Node::Integer(n) => i64::MIN <= n <= u64::MAX,
            Node::Sequence(items) => forall|i: int|
                0 <= i < items@.len() ==> (#[trigger] items@[i]).convertible(),
            Node::Mapping(entries) => forall|i: int|
                0 <= i < entries@.len() ==> (#[trigger] entries@[i]).1.convertible(),
            _ => true,
        }
    }
}

} // verus!
