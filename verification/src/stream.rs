//! Rendering to a string and writing to a sink give the same text.

use vstd::prelude::*;
use vstd::utf8::{decode_utf8, encode_utf8_decode_utf8, encode_utf8_valid_utf8, valid_utf8};
use crate::error::SerializationError;
use crate::node::Node;
use crate::ordered::{ordered_bytes, ordered_text, string_outcome, write_outcome};

verus! {

/// String and stream agree: rendering to a string and writing to an empty
/// sink succeed together, and the bytes then in the sink are valid UTF-8
/// that decodes to that string.
pub proof fn stream_matches_string(
    value: Node,
    text: Result<String, SerializationError>,
    sink: Seq<u8>,
    written: Result<(), SerializationError>,
)
    requires
        string_outcome(value, text),
        write_outcome(value, Seq::empty(), sink, written),
    ensures
        text is Ok <==> written is Ok,
        text matches Ok(rendered) ==> valid_utf8(sink) && decode_utf8(sink) == rendered@,
{
    encode_utf8_valid_utf8(ordered_text(value));
    encode_utf8_decode_utf8(ordered_text(value));
    assert(Seq::<u8>::empty() + ordered_bytes(value) =~= ordered_bytes(value));
}

} // verus!
