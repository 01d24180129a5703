//! The error reported by validation, encoding and transport.

use vstd::prelude::*;
use vstd::string::StringExecFns;

verus! {

/// Why a message could not be accepted, encoded or sent. Each variant carries
/// the text of its cause.
#[derive(Debug, Clone, PartialEq, Eq)]
pub enum MessageError {
    SerializationError(String),
    NetworkError(String),
    InvalidData(String),
}

impl MessageError {
    /// The text of the cause alone.
    pub open spec fn cause(&self) -> Seq<char> {
        match self {
            MessageError::SerializationError(e) => e@,
            MessageError::NetworkError(e) => e@,
            MessageError::InvalidData(e) => e@,
        }
    }

    /// The rendering of the error: a prefix that names the kind, then the cause.
    pub open spec fn text(&self) -> Seq<char> {
        match self {
            MessageError::SerializationError(e) => "Serialization error: "@ + e@,
            MessageError::NetworkError(e) => "Network error: "@ + e@,
            MessageError::InvalidData(e) => "Invalid data: "@ + e@,
        }
    }

    /// An `InvalidData` error with the given cause.
    pub fn invalid(cause: &str) -> (e: MessageError)
        ensures
            e is InvalidData,
            e.cause() == cause@,
    {
        MessageError::InvalidData(String::from_str(cause))
    }

    /// Renders the error as text.
    pub fn message(&self) -> (s: String)
        ensures
            s@ == self.text(),
    {
        match self {
            MessageError::SerializationError(e) => {
                String::from_str("Serialization error: ").concat(e.as_str())
            },
            MessageError::NetworkError(e) => String::from_str("Network error: ").concat(e.as_str()),
            MessageError::InvalidData(e) => String::from_str("Invalid data: ").concat(e.as_str()),
        }
    }
}

} // verus!
