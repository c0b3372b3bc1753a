//! Rendering a value as canonical JSON, into a string or onto a byte sink.

use vstd::prelude::*;
use vstd::utf8::encode_utf8;
use crate::backend::{compact_json, render, render_into, value_tree};
use crate::convert::to_value;
use crate::error::SerializationError;
use crate::node::Node;

verus! {

/// The canonical text of a value: the compact JSON text of its document.
pub open spec fn ordered_text(value: Node) -> Seq<char> {
    compact_json(value.tree())
}

/// The canonical text of a value as bytes: its UTF-8 encoding.
pub open spec fn ordered_bytes(value: Node) -> Seq<u8> {
    encode_utf8(ordered_text(value))
}

/// What rendering `value` to a string returns: its canonical text where it
/// is convertible, and a failure where it is not.
pub open spec fn string_outcome(value: Node, result: Result<String, SerializationError>) -> bool {
    &&& result is Ok <==> value.convertible()
    &&& result matches Ok(text) ==> text@ == ordered_text(value)
}

/// What writing `value` to a sink that held `before` returns, and what the
/// sink holds then.
///
/// A convertible value is written: the sink has gained the bytes of the
/// canonical text and nothing else. Any other value fails before anything
/// is written.
pub open spec fn write_outcome(
    value: Node,
    before: Seq<u8>,
    after: Seq<u8>,
    result: Result<(), SerializationError>,
) -> bool {
    &&& result is Ok <==> value.convertible()
    &&& result is Ok ==> after == before + ordered_bytes(value)
    &&& result is Err ==> after == before
}

/// Renders the outcome of a conversion: the compact text of the document
/// where the conversion succeeded, and its failure, wrapped, where it did
/// not.
pub fn render_converted(converted: Result<serde_json::Value, serde_json::Error>) -> (result: Result<
    String,
    SerializationError,
>)
    ensures
        converted matches Ok(value) ==> result matches Ok(text) && text@ == compact_json(
            value_tree(value),
        ),
        converted matches Err(cause) ==> result == Err::<String, SerializationError>(
            SerializationError { cause },
        ),
{
    match converted {
        Ok(value) => Ok(render(&value)),
        Err(cause) => Err(SerializationError::from(cause)),
    }
}

/// Writes the outcome of a conversion to the end of `sink`.
///
/// A document is written: the sink has gained the UTF-8 bytes of its
/// compact text and nothing else. A failed conversion is handed on,
/// wrapped, and nothing is written.
pub fn write_converted(
    converted: Result<serde_json::Value, serde_json::Error>,
    sink: &mut Vec<u8>,
) -> (result: Result<(), SerializationError>)
    ensures
        converted matches Ok(value) ==> result is Ok && final(sink)@ == old(sink)@ + encode_utf8(
            compact_json(value_tree(value)),
        ),
        converted matches Err(cause) ==> final(sink)@ == old(sink)@ && result == Err::<
            (),
            SerializationError,
        >(SerializationError { cause }),
{
    match converted {
        Ok(value) => SerializationError::propagate(render_into(sink, &value)),
        Err(cause) => Err(SerializationError::from(cause)),
    }
}

/// Renders a value as canonical JSON.
///
/// Succeeds exactly on a convertible value, with its canonical text. On any
/// other value it fails, with the failure of the conversion.
pub fn to_ordered_string(value: &Node) -> (result: Result<String, SerializationError>)
    ensures
        string_outcome(*value, result),
{
    render_converted(to_value(value))
}

/// Writes a value as canonical JSON to the end of `sink`, without a
/// trailing newline.
///
/// Succeeds exactly on a convertible value, and has then appended the
/// UTF-8 bytes of its canonical text. On any other value it fails, with
/// the failure of the conversion, and the sink is as it was.
pub fn write_ordered(value: &Node, sink: &mut Vec<u8>) -> (result: Result<(), SerializationError>)
    ensures
        write_outcome(*value, old(sink)@, final(sink)@, result),
{
    write_converted(to_value(value), sink)
}

} // verus!

