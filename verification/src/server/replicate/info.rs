//! The role of a server in replication, and what `INFO replication` tells
//! of it.
use crate::text::{i64_to_string, opt_text, push_char, signed_decimal};
use vstd::prelude::*;
use vstd::string::*;

verus! {

/// `b` is a letter or a digit of ASCII.
pub open spec fn alphanumeric(b: u8) -> bool {
    (48 <= b <= 57) || (65 <= b <= 90) || (97 <= b <= 122)
}

/// A replication ID: 40 letters and digits.
pub open spec fn is_replid(s: Seq<char>) -> bool {
    s.len() == 40 && forall|i: int| 0 <= i < s.len() ==> alphanumeric(#[trigger] s[i] as u8) && (s[i] as int) < 128
}

/// `rand::Rng::sample` on `rand::thread_rng()` with the distribution
/// `rand::distributions::Alphanumeric`: one byte, drawn at random from the
/// letters and digits of ASCII.
#[verifier::external_body]
fn random_alphanumeric() -> (b: u8)
    ensures
        alphanumeric(b),
{
    rand::Rng::sample(&mut rand::thread_rng(), rand::distributions::Alphanumeric)
}

/// A fresh replication ID, drawn at random.
pub fn gen_master_replid() -> (r: String)
    ensures
        is_replid(r@),
{
    let mut id = String::new();
    let mut i: usize = 0;
    while i < 40
        invariant
            i <= 40,
            id@.len() == i,
            forall|k: int| 0 <= k < id@.len() ==> alphanumeric(#[trigger] id@[k] as u8) && (id@[k] as int) < 128,
        decreases 40 - i,
    {
        let b = random_alphanumeric();
        let c = b as char;
        let ghost before = id@;
        push_char(&mut id, c);
        assert forall|k: int| 0 <= k < id@.len() implies alphanumeric(#[trigger] id@[k] as u8) && (
        id@[k] as int) < 128 by {
            if k < before.len() {
                assert(id@[k] == before[k]);
            } else {
                assert(id@[k] == c);
            }
        }
        i = i + 1;
    }
    id
}

/// `<key>:<val>`
pub open spec fn line(key: Seq<char>, val: Seq<char>) -> Seq<char> {
    key + ":"@ + val
}

/// One line of the reply: `<key>:<val>`.
pub fn format(key: &str, val: &str) -> (r: String)
    ensures
        r@ == line(key@, val@),
{
    let mut s = key.to_owned();
    s.append(":");
    s.append(val);
    s
}

/// The role of a server in replication: a leader or a follower.
#[derive(Debug, Clone, Copy, PartialEq, Eq, Structural)]
pub enum Role {
    Master,
    Slave,
}

impl Role {
    /// The name of the role.
    pub open spec fn name(self) -> Seq<char> {
        match self {
            Role::Master => "master"@,
            Role::Slave => "slave"@,
        }
    }

    /// The name of the role.
    pub fn to_str(&self) -> (r: &'static str)
        ensures
            r@ == self.name(),
    {
        match self {
            Role::Master => "master",
            Role::Slave => "slave",
        }
    }
}

/// What a server knows of its place in replication.
#[derive(Debug)]
pub struct ReplicaInfo {
    pub role: Role,
    pub connected_slaves: usize,
    pub master_replid: Option<String>,
    pub master_repl_offset: isize,
}

/// The replication ID as it is shown: `?` where there is none.
pub open spec fn shown_replid(id: Option<Seq<char>>) -> Seq<char> {
    match id {
        Some(s) => s,
        None => "?"@,
    }
}

/// The three lines that tell of a leader: its role, its replication ID and
/// its offset.
pub open spec fn info_text(role: Role, replid: Option<Seq<char>>, offset: isize) -> Seq<char> {
    line("role"@, role.name()) + "\r\n"@ + line("master_replid"@, shown_replid(replid)) + "\r\n"@
        + line("master_repl_offset"@, signed_decimal(offset as int))
}

/// What `INFO replication` shows: the role, and for a leader its replication
/// ID and offset on lines of their own.
pub open spec fn replication_text(role: Role, replid: Option<Seq<char>>, offset: isize) -> Seq<
    char,
> {
    match role {
        Role::Master => info_text(role, replid, offset),
        Role::Slave => line("role"@, role.name()),
    }
}

impl ReplicaInfo {
    /// What `INFO replication` shows of this server: the role, and for a
    /// leader its replication ID and offset on lines of their own.
    pub open spec fn replication_text(&self) -> Seq<char> {
        replication_text(self.role, opt_text(self.master_replid), self.master_repl_offset)
    }

    pub fn new(
        role: Role,
        connected_slaves: usize,
        master_replid: Option<String>,
        master_repl_offset: isize,
    ) -> (r: Self)
        ensures
            r.role == role,
            r.connected_slaves == connected_slaves,
            r.master_replid == master_replid,
            r.master_repl_offset == master_repl_offset,
    {
        Self { role, connected_slaves, master_replid, master_repl_offset }
    }

    /// A leader without followers, under a fresh replication ID.
    pub fn default() -> (r: Self)
        ensures
            r.role == Role::Master,
            r.connected_slaves == 0,
            r.master_replid matches Some(id) && is_replid(id@),
            r.master_repl_offset == 0,
    {
        Self::new(Role::Master, 0, Some(gen_master_replid()), 0)
    }

    /// A follower that pretends to a replication ID of its own.
    pub fn fake_replica() -> (r: Self)
        ensures
            r.role == Role::Slave,
            r.connected_slaves == 0,
            r.master_replid matches Some(id) && is_replid(id@),
            r.master_repl_offset == 0,
    {
        Self::new(Role::Slave, 0, Some(gen_master_replid()), 0)
    }

    /// A follower that has not attached yet: it knows no replication ID, and
    /// its offset is -1.
    pub fn replica() -> (r: Self)
        ensures
            r.role == Role::Slave,
            r.connected_slaves == 0,
            r.master_replid is None,
            r.master_repl_offset == -1,
    {
        Self::new(Role::Slave, 0, None, -1)
    }

    /// The three lines that tell of a leader.
    fn leader_lines(&self) -> (r: String)
        ensures
            r@ == info_text(self.role, opt_text(self.master_replid), self.master_repl_offset),
    {
        let mut out = format("role", self.role.to_str());
        out.append("\r\n");
        let id = match &self.master_replid {
            Some(s) => format("master_replid", s.as_str()),
            None => format("master_replid", "?"),
        };
        out.append(id.as_str());
        out.append("\r\n");
        let offset = i64_to_string(self.master_repl_offset as i64);
        let last = format("master_repl_offset", offset.as_str());
        out.append(last.as_str());
        out
    }

    /// What `INFO replication` shows of this server: the role, and for a
    /// leader its replication ID and offset on lines of their own.
    pub fn to_string(&self) -> (r: String)
        ensures
            r@ == self.replication_text(),
    {
        match self.role {
            Role::Master => self.leader_lines(),
            Role::Slave => format("role", self.role.to_str()),
        }
    }
}

} // verus!
