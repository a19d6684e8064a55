//! Faults of the store itself.
use vstd::prelude::*;

verus! {

/// A fault of the store itself.
#[derive(Debug, Clone, Copy, PartialEq, Eq, Structural)]
pub enum StoreError {
    ReadFailed,
    WriteFailed,
}

impl StoreError {
    /// The text that describes this error.
    pub open spec fn message(self) -> Seq<char> {
        match self {
            StoreError::ReadFailed => "Store Error: Read failed!"@,
            StoreError::WriteFailed => "Store Error: Write failed!"@,
        }
    }

    /// The text that describes this error.
    pub fn to_string(&self) -> (r: String)
        ensures
            r@ == self.message(),
    {
        match self {
            StoreError::ReadFailed => "Store Error: Read failed!".to_owned(),
            StoreError::WriteFailed => "Store Error: Write failed!".to_owned(),
        }
    }
}

} // verus!
