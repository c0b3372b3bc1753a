//! Canonical JSON: rendering a value so that the text is the same whatever
//! order the value listed the entries of its mappings in.
//!
//! A value is converted to the JSON backend's document, whose objects hold
//! one value per key and walk their keys in ascending order, and the
//! document is rendered in compact form, to a string or onto a byte sink.
//!
//! - `tree`: the mathematical model of a document.
//! - `node`: the values that can be rendered, and the documents they denote.
//! - `error`: the failure that rendering reports.
//! - `backend`: the calls into `serde_json`, with what is taken on trust.
//! - `convert`: the conversion of a value to the backend's document.
//! - `ordered`: the entry points.
//! - `guarantees`, `stream`: what holds of every rendering.

pub mod tree;
pub mod node;
pub mod error;
pub mod backend;
pub mod convert;
pub mod ordered;
pub mod guarantees;
pub mod stream;

pub use crate::convert::to_value;
pub use crate::error::SerializationError;
pub use crate::node::Node;
pub use crate::ordered::{render_converted, to_ordered_string, write_converted, write_ordered};
