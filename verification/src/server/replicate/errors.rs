//! Why a follower did not attach to its leader.
use vstd::prelude::*;

verus! {

/// Why a follower did not attach to its leader.
#[derive(Debug, Clone, Copy, PartialEq, Eq, Structural)]
pub enum ReplError {
    /// The leader could not be reached.
    FailedToConnect,
    /// The leader's reply is no value of the wire protocol.
    InvalidResponse,
    /// The leader's reply is not the one that the step expects.
    UnexpectedResponse,
    /// The handshake broke off, or an event came out of turn.
    MasterHandshakeFailed,
}

impl ReplError {
    /// The text that describes this error.
    pub open spec fn message(self) -> Seq<char> {
        match self {
            ReplError::FailedToConnect => "REPL Error: Failed to connect!"@,
            ReplError::InvalidResponse => "REPL Error: Response not in valid RESP format!"@,
            ReplError::UnexpectedResponse => "REPL Error: Unexpected response!"@,
            ReplError::MasterHandshakeFailed => "REPL Error: Master handshake failed!"@,
        }
    }

    /// The text that describes this error.
    pub fn to_string(&self) -> (r: String)
        ensures
            r@ == self.message(),
    {
        match self {
            ReplError::FailedToConnect => "REPL Error: Failed to connect!".to_owned(),
            ReplError::InvalidResponse => "REPL Error: Response not in valid RESP format!".to_owned(),
            ReplError::UnexpectedResponse => "REPL Error: Unexpected response!".to_owned(),
            ReplError::MasterHandshakeFailed => "REPL Error: Master handshake failed!".to_owned(),
        }
    }
}

} // verus!
