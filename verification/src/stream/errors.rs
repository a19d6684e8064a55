//! Why an entry was not appended to a stream.
use vstd::prelude::*;

verus! {

/// Why an entry got no ID.
#[derive(Debug, Clone, Copy, PartialEq, Eq, Structural)]
pub enum StreamError {
    /// The ID is `0-0`, which no entry may have.
    StreamIDZero,
    /// The ID is unreadable, or not greater than the last ID of the stream.
    InvalidStreamID,
}

impl StreamError {
    /// The text that describes this error.
    pub open spec fn message(self) -> Seq<char> {
        match self {
            StreamError::StreamIDZero => "Store Error: Stream ID must not be zero!"@,
            StreamError::InvalidStreamID => "Store Error: Invalid stream ID!"@,
        }
    }

    /// The text that describes this error.
    pub fn to_string(&self) -> (r: String)
        ensures
            r@ == self.message(),
    {
        match self {
            StreamError::StreamIDZero => "Store Error: Stream ID must not be zero!".to_owned(),
            StreamError::InvalidStreamID => "Store Error: Invalid stream ID!".to_owned(),
        }
    }
}

} // verus!
