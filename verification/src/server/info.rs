//! The role line of the `INFO` reply.
use vstd::prelude::*;
use vstd::string::*;

verus! {

/// The role of a server in replication.
#[derive(Debug, Clone, Copy, PartialEq, Eq, Structural)]
pub enum ReplicaType {
    Master,
    Slave,
}

impl ReplicaType {
    /// The name of the role in lower case.
    pub open spec fn lower_name(self) -> Seq<char> {
        match self {
            ReplicaType::Slave => "slave"@,
            ReplicaType::Master => "master"@,
        }
    }

    /// The name of the role in lower case.
    pub fn to_lower(&self) -> (r: &'static str)
        ensures
            r@ == self.lower_name(),
    {
        match self {
            ReplicaType::Slave => "slave",
            ReplicaType::Master => "master",
        }
    }
}

/// `<key>:<val>`
pub open spec fn line(key: Seq<char>, val: Seq<char>) -> Seq<char> {
    key + ":"@ + val
}

/// What a server tells of itself.
#[derive(Debug)]
pub struct Info {
    pub replica_type: ReplicaType,
}

impl Info {
    pub fn new() -> (r: Self)
        ensures
            r.replica_type == ReplicaType::Master,
    {
        Self { replica_type: ReplicaType::Master }
    }

    /// One line of the reply: `<key>:<val>`.
    pub fn format(key: &str, val: &str) -> (r: String)
        ensures
            r@ == line(key@, val@),
    {
        let mut s = key.to_owned();
        s.append(":");
        s.append(val);
        s
    }

    /// The role line: `role:master` or `role:slave`.
    pub fn replica(&self) -> (r: String)
        ensures
            r@ == line("role"@, self.replica_type.lower_name()),
    {
        Info::format("role", self.replica_type.to_lower())
    }
}

} // verus!
