//! The one failure that rendering reports.

use vstd::prelude::*;
use vstd::std_specs::convert::FromSpecImpl;

verus! {

/// A failed rendering. It carries, unchanged, the failure that the JSON
/// backend reported while converting the value or while writing the text.
#[derive(Debug)]
pub struct SerializationError {
    pub cause: serde_json::Error,
}

impl SerializationError {
    /// Hands an outcome of the backend on: a success as it is, a failure
    /// wrapped and otherwise unchanged.
    pub fn propagate<T>(outcome: Result<T, serde_json::Error>) -> (result: Result<
        T,
        SerializationError,
    >)
        ensures
            result == (match outcome {
                Ok(value) => Ok::<T, SerializationError>(value),
                Err(cause) => Err(SerializationError { cause }),
            }),
    {
        match outcome {
            Ok(value) => Ok(value),
            Err(cause) => Err(SerializationError::from(cause)),
        }
    }
}

impl From<serde_json::Error> for SerializationError {
    fn from(cause: serde_json::Error) -> (error: SerializationError) {
        SerializationError { cause }
    }
}

impl FromSpecImpl<serde_json::Error> for SerializationError {
    open spec fn obeys_from_spec() -> bool {
        true
    }

    open spec fn from_spec(cause: serde_json::Error) -> SerializationError {
        SerializationError { cause }
    }
}

} // verus!
