//! What holds of every rendering, proved from the contracts of the two entry
//! points.

use vstd::prelude::*;
use crate::error::SerializationError;
use crate::node::{
    last_index_of, last_index_of_is_last, mapping_tree, mapping_tree_by_key, sequence_trees,
    sequence_trees_by_index, Node,
};
use crate::ordered::{string_outcome, write_outcome};
use crate::tree::Tree;

verus! {

/// Whether some entry of `entries` has the key `key`.
pub open spec fn lists_key(entries: Seq<(String, Node)>, key: Seq<char>) -> bool {
    exists|i: int| 0 <= i < entries.len() && (#[trigger] entries[i]).0@ == key
}

/// Whether two lists of entries hold the same key-value pairs: they list the
/// same keys, and two entries with the same key, one from each list, hold
/// the same value.
pub open spec fn same_pairs(first: Seq<(String, Node)>, second: Seq<(String, Node)>) -> bool {
    &&& forall|key: Seq<char>| lists_key(first, key) <==> lists_key(second, key)
    &&& forall|i: int, j: int|
        0 <= i < first.len() && 0 <= j < second.len() && (#[trigger] first[i]).0@ == (
        #[trigger] second[j]).0@ ==> first[i].1 == second[j].1
}

/// Whether `b` is `a` with the entries of its mappings, at any depth, listed
/// in another order: scalars are equal, sequences agree place by place, and
/// mappings list the same keys, with values under the same key that are
/// rearrangements of each other.
pub open spec fn rearranged(a: Node, b: Node) -> bool
    decreases a,
{
    match (a, b) {
        (Node::Null, Node::Null) => true,
        (Node::Bool(x), Node::Bool(y)) => x == y,
        (Node::Integer(x), Node::Integer(y)) => x == y,
        (Node::Text(x), Node::Text(y)) => x@ == y@,
        (Node::Sequence(x), Node::Sequence(y)) => {
            &&& x@.len() == y@.len()
            &&& forall|i: int| 0 <= i < x@.len() ==> rearranged(#[trigger] x@[i], y@[i])
        },
        (Node::Mapping(x), Node::Mapping(y)) => {
            &&& forall|key: Seq<char>| lists_key(x@, key) <==> lists_key(y@, key)
            &&& forall|i: int, j: int|
                0 <= i < x@.len() && 0 <= j < y@.len() && (#[trigger] x@[i]).0@ == (
                #[trigger] y@[j]).0@ ==> rearranged(x@[i].1, y@[j].1)
        },
        _ => false,
    }
}

/// A key is listed exactly where `last_index_of` finds it.
pub proof fn lists_key_iff_found(entries: Seq<(String, Node)>, key: Seq<char>)
    ensures
        lists_key(entries, key) <==> last_index_of(entries, key) >= 0,
{
    last_index_of_is_last(entries, key);
}

/// Whether two results of rendering to a string are the same: both are
/// failures, or both are texts and the texts are equal.
pub open spec fn agree(
    first: Result<String, SerializationError>,
    second: Result<String, SerializationError>,
) -> bool {
    match (first, second) {
        (Ok(a), Ok(b)) => a@ == b@,
        (Err(_), Err(_)) => true,
        _ => false,
    }
}

/// Two lists with the same key-value pairs make the same mapping, and are
/// convertible together.
pub proof fn same_pairs_same_document(first: Seq<(String, Node)>, second: Seq<(String, Node)>)
    requires
        same_pairs(first, second),
    ensures
        mapping_tree(first) == mapping_tree(second),
        (forall|i: int| 0 <= i < first.len() ==> (#[trigger] first[i]).1.convertible()) <==> (
        forall|j: int| 0 <= j < second.len() ==> (#[trigger] second[j]).1.convertible()),
{
    assert forall|key: Seq<char>|
        mapping_tree(first).dom().contains(key) <==> mapping_tree(second).dom().contains(
            key,
        ) by {
        mapping_tree_by_key(first, key);
        mapping_tree_by_key(second, key);
        lists_key_iff_found(first, key);
        lists_key_iff_found(second, key);
    }
    assert forall|key: Seq<char>| #[trigger]
        mapping_tree(first).dom().contains(key) implies mapping_tree(first)[key] == mapping_tree(
        second,
    )[key] by {
        mapping_tree_by_key(first, key);
        mapping_tree_by_key(second, key);
        last_index_of_is_last(first, key);
        last_index_of_is_last(second, key);
        let i = last_index_of(first, key);
        let j = last_index_of(second, key);
        assert(first[i].0@ == second[j].0@);
    }
    assert(mapping_tree(first) =~= mapping_tree(second));
    if forall|i: int| 0 <= i < first.len() ==> (#[trigger] first[i]).1.convertible() {
        assert forall|j: int| 0 <= j < second.len() implies (#[trigger] second[j]).1.convertible() by {
            assert(lists_key(second, second[j].0@));
            let i = choose|i: int| 0 <= i < first.len() && (#[trigger] first[i]).0@ == second[j].0@;
            assert(first[i].1.convertible());
        }
    }
    if forall|j: int| 0 <= j < second.len() ==> (#[trigger] second[j]).1.convertible() {
        assert forall|i: int| 0 <= i < first.len() implies (#[trigger] first[i]).1.convertible() by {
            assert(lists_key(first, first[i].0@));
            let j = choose|j: int|
                0 <= j < second.len() && (#[trigger] second[j]).0@ == first[i].0@;
            assert(second[j].1.convertible());
        }
    }
}

/// A rearrangement of a value denotes the same document, and is convertible
/// exactly where the value is.
pub proof fn rearranged_same_document(a: Node, b: Node)
    requires
        rearranged(a, b),
    ensures
        a.tree() == b.tree(),
        a.convertible() == b.convertible(),
    decreases a,
{
    match (a, b) {
        (Node::Sequence(x), Node::Sequence(y)) => {
            sequence_trees_by_index(x@);
            sequence_trees_by_index(y@);
            assert forall|i: int| 0 <= i < x@.len() implies (#[trigger] x@[i]).tree()
                == y@[i].tree() && x@[i].convertible() == y@[i].convertible() by {
                rearranged_same_document(x@[i], y@[i]);
            }
            assert forall|i: int| 0 <= i < x@.len() implies (#[trigger] sequence_trees(
                x@,
            )[i]) == sequence_trees(y@)[i] by {
                assert(x@[i].tree() == y@[i].tree());
            }
            assert(sequence_trees(x@) =~= sequence_trees(y@));
            assert(a.convertible() == b.convertible()) by {
                if a.convertible() {
                    assert forall|i: int| 0 <= i < y@.len() implies (
                    #[trigger] y@[i]).convertible() by {
                        assert(x@[i].convertible());
                    }
                }
                if b.convertible() {
                    assert forall|i: int| 0 <= i < x@.len() implies (
                    #[trigger] x@[i]).convertible() by {
                        assert(y@[i].convertible());
                    }
                }
            }
        },
        (Node::Mapping(x), Node::Mapping(y)) => {
            assert forall|key: Seq<char>|
                mapping_tree(x@).dom().contains(key) <==> mapping_tree(y@).dom().contains(
                    key,
                ) by {
                mapping_tree_by_key(x@, key);
                mapping_tree_by_key(y@, key);
                lists_key_iff_found(x@, key);
                lists_key_iff_found(y@, key);
            }
            assert forall|key: Seq<char>| #[trigger]
                mapping_tree(x@).dom().contains(key) implies mapping_tree(x@)[key]
                == mapping_tree(y@)[key] by {
                mapping_tree_by_key(x@, key);
                mapping_tree_by_key(y@, key);
                last_index_of_is_last(x@, key);
                last_index_of_is_last(y@, key);
                let i = last_index_of(x@, key);
                let j = last_index_of(y@, key);
                assert(x@[i].0@ == y@[j].0@);
                rearranged_same_document(x@[i].1, y@[j].1);
            }
            assert(mapping_tree(x@) =~= mapping_tree(y@));
            assert(a.convertible() == b.convertible()) by {
                if a.convertible() {
                    assert forall|j: int| 0 <= j < y@.len() implies (
                    #[trigger] y@[j]).1.convertible() by {
                        assert(lists_key(y@, y@[j].0@));
                        let i = choose|i: int|
                            0 <= i < x@.len() && (#[trigger] x@[i]).0@ == y@[j].0@;
                        rearranged_same_document(x@[i].1, y@[j].1);
                        assert(x@[i].1.convertible());
                    }
                }
                if b.convertible() {
                    assert forall|i: int| 0 <= i < x@.len() implies (
                    #[trigger] x@[i]).1.convertible() by {
                        assert(lists_key(x@, x@[i].0@));
                        let j = choose|j: int|
                            0 <= j < y@.len() && (#[trigger] y@[j]).0@ == x@[i].0@;
                        rearranged_same_document(x@[i].1, y@[j].1);
                        assert(y@[j].1.convertible());
                    }
                }
            }
        },
        _ => {},
    }
}

/// Determinism: rendering one value twice gives the same result.
pub proof fn determinism(
    value: Node,
    first: Result<String, SerializationError>,
    second: Result<String, SerializationError>,
)
    requires
        string_outcome(value, first),
        string_outcome(value, second),
    ensures
        agree(first, second),
{
}

/// Order independence: two mappings that hold the same key-value pairs,
/// listed in whatever orders, render to the same result.
pub proof fn order_independence(
    first: Vec<(String, Node)>,
    second: Vec<(String, Node)>,
    first_result: Result<String, SerializationError>,
    second_result: Result<String, SerializationError>,
)
    requires
        same_pairs(first@, second@),
        string_outcome(Node::Mapping(first), first_result),
        string_outcome(Node::Mapping(second), second_result),
    ensures
        agree(first_result, second_result),
{
    same_pairs_same_document(first@, second@);
}

/// Order independence at every depth: a value and a rearrangement of it
/// render to the same result, however deep the rearranged mappings lie.
pub proof fn nested_order_independence(
    a: Node,
    b: Node,
    a_result: Result<String, SerializationError>,
    b_result: Result<String, SerializationError>,
)
    requires
        rearranged(a, b),
        string_outcome(a, a_result),
        string_outcome(b, b_result),
    ensures
        agree(a_result, b_result),
{
    rearranged_same_document(a, b);
}

/// Sequences keep their order: the document of a sequence holds, at each
/// place, the document of the item listed at that place.
pub proof fn sequence_keeps_order(items: Vec<Node>)
    ensures
        Node::Sequence(items).tree() == Tree::Sequence(sequence_trees(items@)),
        sequence_trees(items@).len() == items@.len(),
        forall|i: int|
            0 <= i < items@.len() ==> sequence_trees(items@)[i] == (#[trigger] items@[i]).tree(),
{
    sequence_trees_by_index(items@);
}

/// A failed conversion fails both entry points: a value that is not
/// convertible gives a failure from each, and leaves the sink as it was.
pub proof fn conversion_failure_fails_both(
    value: Node,
    text: Result<String, SerializationError>,
    before: Seq<u8>,
    after: Seq<u8>,
    written: Result<(), SerializationError>,
)
    requires
        !value.convertible(),
        string_outcome(value, text),
        write_outcome(value, before, after, written),
    ensures
        text is Err,
        written is Err,
        after == before,
{
}

} // verus!
