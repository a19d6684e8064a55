//! What the codec reports of bytes that it cannot read.
use vstd::prelude::*;

verus! {

/// Why bytes are no value, or a value not the one asked for.
#[derive(Debug, Clone, Copy, PartialEq, Eq, Structural)]
pub enum RESPError {
    /// The first byte of a value names no known type, or a value of another
    /// type was asked for.
    InvalidType,
    /// A length is unreadable, or the bytes end before the value does.
    InvalidData,
}

impl RESPError {
    /// The text that describes this error.
    pub open spec fn message(self) -> Seq<char> {
        match self {
            RESPError::InvalidType => "RESP Error: Invalid type!"@,
            RESPError::InvalidData => "RESP Error: Invalid data!"@,
        }
    }

    /// The text that describes this error.
    pub fn to_string(&self) -> (r: String)
        ensures
            r@ == self.message(),
    {
        match self {
            RESPError::InvalidType => "RESP Error: Invalid type!".to_owned(),
            RESPError::InvalidData => "RESP Error: Invalid data!".to_owned(),
        }
    }
}

} // verus!
