//! The mathematical model of a JSON document.

use vstd::prelude::*;

verus! {

/// A JSON document as a mathematical value. A mapping is a `Map`, so it has
/// no order of its own and holds one value per key.
#[verifier::ext_equal]
pub enum Tree {
    Null,
    Bool(bool),
    Number(int),
    Text(Seq<char>),
    Sequence(Seq<Tree>),
    Mapping(Map<Seq<char>, Tree>),
}

} // verus!
