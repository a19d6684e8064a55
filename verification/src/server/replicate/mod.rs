//! Replication: the role of a server, the followers of a leader, and the
//! handshake of a follower.
pub mod command;
pub mod errors;
pub mod info;

use vstd::prelude::*;

verus! {

/// A registered follower: the connection that leads to it, by the number
/// under which the connection layer knows it, and the port that the follower
/// said it listens on.
#[derive(Debug, Clone, Copy, PartialEq, Eq, Structural)]
pub struct Replica {
    pub conn: u64,
    pub port: Option<u16>,
}

impl Replica {
    pub fn new(conn: u64) -> (r: Self)
        ensures
            r == (Replica { conn, port: None }),
    {
        Self { conn, port: None }
    }
}

} // verus!
