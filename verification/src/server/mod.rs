//! The server: its state, the commands that act on it, and replication.
//!
//! The state is plain data. What reads from a connection and writes to it
//! lives outside this crate; it hands in the bytes that came and the number
//! of the connection, and carries out what comes back.
pub mod command;
pub mod connect;
pub mod errors;
pub mod execute;
pub mod info;
pub mod replicate;
pub mod store;

use self::command::texts;
use self::replicate::info::{ReplicaInfo, Role};
use self::replicate::Replica;
use self::store::Store;
use crate::stream::StreamID;
use crate::text::opt_text;
use vstd::prelude::*;
use vstd::string::*;

verus! {

/// The port of a server that was given none.
pub const DEFAULT_PORT: u16 = 6379;

/// The state of a server: who it is, its stores, and, on a leader, the
/// followers and what waits to go to them.
pub struct Server {
    pub port: u16,
    pub master_ip: Option<[u8; 4]>,
    pub master_port: Option<u16>,
    pub store: Store,
    pub replica_info: ReplicaInfo,
    pub replicas: Vec<Replica>,
    pub repl_queue: Vec<String>,
}

/// The mathematical model of a [`Server`].
pub struct ServerModel {
    pub port: u16,
    pub master_ip: Option<[u8; 4]>,
    pub master_port: Option<u16>,
    /// The key-value store: for each key its text and expiry.
    pub kv: Map<Seq<char>, (Seq<char>, Option<u128>)>,
    /// The stream store: for each key its entries.
    pub streams: Map<Seq<char>, Seq<(StreamID, Seq<(Seq<char>, Seq<char>)>)>>,
    pub role: Role,
    pub master_replid: Option<Seq<char>>,
    pub master_repl_offset: isize,
    /// The number of followers that the server counts as connected.
    pub connected_slaves: usize,
    /// The registered followers, in the order in which they attached.
    pub replicas: Seq<Replica>,
    /// The serialized write commands that wait for the next flush.
    pub repl_queue: Seq<Seq<char>>,
}

impl View for Server {
    type V = ServerModel;

    open spec fn view(&self) -> ServerModel {
        ServerModel {
            port: self.port,
            master_ip: self.master_ip,
            master_port: self.master_port,
            kv: self.store.kv_store@,
            streams: self.store.stream_store@,
            role: self.replica_info.role,
            master_replid: opt_text(self.replica_info.master_replid),
            master_repl_offset: self.replica_info.master_repl_offset,
            connected_slaves: self.replica_info.connected_slaves,
            replicas: self.replicas@,
            repl_queue: texts(self.repl_queue@),
        }
    }
}

/// A follower is registered under the connection `conn`.
pub open spec fn registered(replicas: Seq<Replica>, conn: u64) -> bool {
    exists|i: int| 0 <= i < replicas.len() && (#[trigger] replicas[i]).conn == conn
}

/// No connection is registered twice.
pub open spec fn distinct(replicas: Seq<Replica>) -> bool {
    forall|i: int, j: int|
        0 <= i < j < replicas.len() ==> (#[trigger] replicas[i]).conn != (#[trigger] replicas[j]).conn
}

/// The followers after the connection `conn` registered: a new follower at
/// the end, or, where the connection is a follower already, the same
/// followers, with the port that it now gave, if it gave one.
pub open spec fn register(replicas: Seq<Replica>, conn: u64, port: Option<u16>) -> Seq<Replica> {
    if registered(replicas, conn) {
        Seq::new(
            replicas.len(),
            |i: int|
                if replicas[i].conn == conn && port is Some {
                    Replica { conn, port }
                } else {
                    replicas[i]
                },
        )
    } else {
        replicas.push(Replica { conn, port })
    }
}

/// The followers that are left when those under the connections `failed`
/// are taken out; the others keep their order.
pub open spec fn kept(replicas: Seq<Replica>, failed: Seq<u64>) -> Seq<Replica>
    decreases replicas.len(),
{
    if replicas.len() == 0 {
        Seq::empty()
    } else if failed.contains(replicas.last().conn) {
        kept(replicas.drop_last(), failed)
    } else {
        kept(replicas.drop_last(), failed).push(replicas.last())
    }
}

/// The connections of the followers, in order.
pub open spec fn conns(replicas: Seq<Replica>) -> Seq<u64> {
    Seq::new(replicas.len(), |i: int| replicas[i].conn)
}

/// The texts of the queue, one after the other.
pub open spec fn joined(queue: Seq<Seq<char>>) -> Seq<char>
    decreases queue.len(),
{
    if queue.len() == 0 {
        Seq::empty()
    } else {
        joined(queue.drop_last()) + queue.last()
    }
}

/// The state with another registry of followers, all of them counted.
pub open spec fn with_replicas(s: ServerModel, replicas: Seq<Replica>) -> ServerModel {
    ServerModel { replicas, connected_slaves: replicas.len() as usize, ..s }
}

/// The state after a flush in which the writes to the connections `failed`
/// failed: those followers are gone and no longer counted, and the queue is
/// empty.
pub open spec fn flushed(s: ServerModel, failed: Seq<u64>) -> ServerModel {
    ServerModel { repl_queue: Seq::empty(), ..with_replicas(s, kept(s.replicas, failed)) }
}

/// A connection that registers is a follower from then on, and only once:
/// the registry grows by one where the connection is new, and not at all
/// where it is a follower already.
pub proof fn lemma_register(replicas: Seq<Replica>, conn: u64, port: Option<u16>)
    ensures
        registered(register(replicas, conn, port), conn),
        register(replicas, conn, port).len() == replicas.len() + (if registered(replicas, conn) {
            0int
        } else {
            1int
        }),
        distinct(replicas) ==> distinct(register(replicas, conn, port)),
        forall|other: u64|
            other != conn ==> (registered(register(replicas, conn, port), other) <==> registered(
                replicas,
                other,
            )),
{
    let after = register(replicas, conn, port);
    if registered(replicas, conn) {
        let i = choose|i: int| 0 <= i < replicas.len() && (#[trigger] replicas[i]).conn == conn;
        assert(after[i].conn == conn);
        assert forall|a: int, b: int| 0 <= a < b < after.len() && distinct(replicas) implies (
        #[trigger] after[a]).conn != (#[trigger] after[b]).conn by {
            assert(after[a].conn == replicas[a].conn);
            assert(after[b].conn == replicas[b].conn);
        }
        assert forall|other: u64| other != conn implies (registered(after, other) <==> registered(
            replicas,
            other,
        )) by {
            if registered(after, other) {
                let k = choose|k: int| 0 <= k < after.len() && (#[trigger] after[k]).conn == other;
                assert(replicas[k].conn == other);
            }
            if registered(replicas, other) {
                let k = choose|k: int|
                    0 <= k < replicas.len() && (#[trigger] replicas[k]).conn == other;
                assert(after[k].conn == other);
            }
        }
    } else {
        assert(after[after.len() - 1].conn == conn);
        assert forall|a: int, b: int| 0 <= a < b < after.len() && distinct(replicas) implies (
        #[trigger] after[a]).conn != (#[trigger] after[b]).conn by {
            assert(after[a] == replicas[a]);
            if b < replicas.len() {
                assert(after[b] == replicas[b]);
            }
        }
        assert forall|other: u64| other != conn implies (registered(after, other) <==> registered(
            replicas,
            other,
        )) by {
            if registered(after, other) {
                let k = choose|k: int| 0 <= k < after.len() && (#[trigger] after[k]).conn == other;
                assert(replicas[k].conn == other);
            }
            if registered(replicas, other) {
                let k = choose|k: int|
                    0 <= k < replicas.len() && (#[trigger] replicas[k]).conn == other;
                assert(after[k].conn == other);
            }
        }
    }
}

/// Every follower that is kept was registered, and none under a failed
/// connection is kept.
pub proof fn lemma_kept(replicas: Seq<Replica>, failed: Seq<u64>)
    ensures
        kept(replicas, failed).len() <= replicas.len(),
        forall|r: Replica|
            #![trigger kept(replicas, failed).contains(r)]
            #![trigger replicas.contains(r)]
            kept(replicas, failed).contains(r) <==> replicas.contains(r) && !failed.contains(r.conn),
        distinct(replicas) ==> distinct(kept(replicas, failed)),
    decreases replicas.len(),
{
    if replicas.len() > 0 {
        let front = replicas.drop_last();
        let last = replicas.last();
        lemma_kept(front, failed);
        let k = kept(replicas, failed);
        assert forall|r: Replica|
            #![trigger k.contains(r)]
            #![trigger replicas.contains(r)]
            k.contains(r) <==> replicas.contains(r) && !failed.contains(r.conn) by {
            if k.contains(r) {
                let i = choose|i: int| 0 <= i < k.len() && k[i] == r;
                if failed.contains(last.conn) {
                    assert(kept(front, failed).contains(r));
                    let j = choose|j: int| 0 <= j < front.len() && front[j] == r;
                    assert(replicas[j] == r);
                } else if i < k.len() - 1 {
                    assert(kept(front, failed)[i] == r);
                    assert(kept(front, failed).contains(r));
                    let j = choose|j: int| 0 <= j < front.len() && front[j] == r;
                    assert(replicas[j] == r);
                } else {
                    assert(replicas[replicas.len() - 1] == r);
                }
            }
            if replicas.contains(r) && !failed.contains(r.conn) {
                let j = choose|j: int| 0 <= j < replicas.len() && replicas[j] == r;
                if j < front.len() {
                    assert(front[j] == r);
                    assert(front.contains(r));
                    let i = choose|i: int|
                        0 <= i < kept(front, failed).len() && kept(front, failed)[i] == r;
                    assert(k[i] == r);
                } else {
                    assert(k[k.len() - 1] == r);
                }
            }
        }
        if distinct(replicas) {
            assert(distinct(front)) by {
                assert forall|i: int, j: int| 0 <= i < j < front.len() implies (#[trigger] front[i]).conn
                    != (#[trigger] front[j]).conn by {
                    assert(replicas[i] == front[i]);
                    assert(replicas[j] == front[j]);
                }
            }
            if !failed.contains(last.conn) {
                let kf = kept(front, failed);
                assert forall|i: int, j: int| 0 <= i < j < k.len() implies (#[trigger] k[i]).conn != (
                #[trigger] k[j]).conn by {
                    if j == k.len() - 1 {
                        assert(kf.contains(kf[i]));
                        assert(front.contains(kf[i]));
                        let m = choose|m: int| 0 <= m < front.len() && front[m] == kf[i];
                        assert(replicas[m] == kf[i]);
                        assert(replicas[replicas.len() - 1] == last);
                    } else {
                        assert(k[i] == kf[i]);
                        assert(k[j] == kf[j]);
                    }
                }
            }
        }
    }
}

impl Server {
    /// The followers are counted, no connection is registered twice, and
    /// the IDs of each stream grow.
    pub open spec fn wf(&self) -> bool {
        &&& self.store.stream_store.wf()
        &&& self.replica_info.connected_slaves == self.replicas@.len()
        &&& distinct(self.replicas@)
    }

    pub fn new(
        port: u16,
        master_ip: Option<[u8; 4]>,
        master_port: Option<u16>,
        store: Store,
        replica_info: ReplicaInfo,
        replicas: Vec<Replica>,
        repl_queue: Vec<String>,
    ) -> (r: Self)
        ensures
            r.port == port,
            r.master_ip == master_ip,
            r.master_port == master_port,
            r.store == store,
            r.replica_info == replica_info,
            r.replicas == replicas,
            r.repl_queue == repl_queue,
    {
        Self { port, master_ip, master_port, store, replica_info, replicas, repl_queue }
    }

    /// A leader on `port`, with empty stores, no followers and a fresh
    /// replication ID.
    pub fn master(port: u16) -> (r: Self)
        ensures
            r.wf(),
            r.port == port,
            r.master_ip is None,
            r.master_port is None,
            r@.kv == self::store::no_entries(),
            r@.streams == crate::stream::store::no_streams(),
            r@.role == Role::Master,
            r@.master_replid matches Some(id) && self::replicate::info::is_replid(id),
            r@.master_repl_offset == 0,
            r@.connected_slaves == 0,
            r@.replicas == Seq::<Replica>::empty(),
            r@.repl_queue == Seq::<Seq<char>>::empty(),
    {
        let r = Self::new(
            port,
            None,
            None,
            Store::new(),
            ReplicaInfo::default(),
            Vec::new(),
            Vec::new(),
        );
        assert(texts(r.repl_queue@) =~= Seq::<Seq<char>>::empty());
        r
    }

    /// A follower on `port` of the leader at `master_ip` and `master_port`,
    /// with empty stores; it has not attached yet.
    pub fn replica(port: u16, master_ip: [u8; 4], master_port: u16) -> (r: Self)
        ensures
            r.wf(),
            r.port == port,
            r.master_ip == Some(master_ip),
            r.master_port == Some(master_port),
            r@.kv == self::store::no_entries(),
            r@.streams == crate::stream::store::no_streams(),
            r@.role == Role::Slave,
            r@.master_replid is None,
            r@.master_repl_offset == -1,
            r@.connected_slaves == 0,
            r@.replicas == Seq::<Replica>::empty(),
            r@.repl_queue == Seq::<Seq<char>>::empty(),
    {
        let r = Self::new(
            port,
            Some(master_ip),
            Some(master_port),
            Store::new(),
            ReplicaInfo::replica(),
            Vec::new(),
            Vec::new(),
        );
        assert(texts(r.repl_queue@) =~= Seq::<Seq<char>>::empty());
        r
    }

    /// The address of the leader, where this server follows one.
    pub fn master_addr(&self) -> (r: Option<([u8; 4], u16)>)
        ensures
            r == match (self.master_ip, self.master_port) {
                (Some(ip), Some(port)) => Some((ip, port)),
                _ => None,
            },
    {
        match (self.master_ip, self.master_port) {
            (Some(ip), Some(port)) => Some((ip, port)),
            _ => None,
        }
    }

    /// Registers the connection `conn` as a follower's.
    #[verifier::loop_isolation(false)]
    pub fn register(&mut self, conn: u64, port: Option<u16>)
        requires
            old(self).wf(),
        ensures
            final(self).wf(),
            final(self)@ == with_replicas(old(self)@, register(old(self)@.replicas, conn, port)),
    {
        let ghost before = self.replicas@;
        let mut i: usize = 0;
        while i < self.replicas.len()
            invariant
                i <= self.replicas@.len(),
                *self == *old(self),
                self.replicas@ == before,
                forall|k: int| 0 <= k < i ==> (#[trigger] before[k]).conn != conn,
            decreases self.replicas@.len() - i,
        {
            if self.replicas[i].conn == conn {
                assert(registered(before, conn));
                match port {
                    Some(_) => {
                        self.replicas[i] = Replica { conn, port };
                    },
                    None => {},
                }
                proof {
                    let after = self.replicas@;
                    assert forall|k: int| 0 <= k < before.len() implies #[trigger] after[k]
                        == register(before, conn, port)[k] by {
                        if k != i {
                            if k < i {
                                assert(before[k].conn != conn);
                            } else {
                                assert(before[i as int].conn != before[k].conn);
                            }
                        }
                    }
                    assert(after =~= register(before, conn, port));
                    assert forall|a: int, b: int| 0 <= a < b < after.len() implies (#[trigger] after[a]).conn
                        != (#[trigger] after[b]).conn by {
                        assert(after[a].conn == before[a].conn);
                        assert(after[b].conn == before[b].conn);
                    }
                }
                return ;
            }
            i = i + 1;
        }
        assert(!registered(before, conn));
        self.replicas.push(Replica { conn, port });
        self.replica_info.connected_slaves = self.replicas.len();
        proof {
            let after = self.replicas@;
            assert forall|a: int, b: int| 0 <= a < b < after.len() implies (#[trigger] after[a]).conn
                != (#[trigger] after[b]).conn by {
                if b < before.len() {
                    assert(after[a] == before[a]);
                    assert(after[b] == before[b]);
                } else {
                    assert(after[a] == before[a]);
                }
            }
        }
    }

    /// What a flush has to write: the connections of the followers, and the
    /// queue as one text, which goes to each of them.
    pub fn propagation(&self) -> (r: (Vec<u64>, String))
        ensures
            r.0@ == conns(self@.replicas),
            r.1@ == joined(self@.repl_queue),
    {
        let mut targets: Vec<u64> = Vec::new();
        let mut i: usize = 0;
        while i < self.replicas.len()
            invariant
                i <= self.replicas@.len(),
                targets@ == conns(self.replicas@).subrange(0, i as int),
            decreases self.replicas@.len() - i,
        {
            targets.push(self.replicas[i].conn);
            assert(targets@ =~= conns(self.replicas@).subrange(0, i + 1));
            i = i + 1;
        }
        assert(targets@ =~= conns(self.replicas@));
        let ghost queue = texts(self.repl_queue@);
        let mut payload = String::new();
        let mut k: usize = 0;
        assert(queue.subrange(0, 0) =~= Seq::<Seq<char>>::empty());
        assert(payload@ =~= joined(queue.subrange(0, 0)));
        while k < self.repl_queue.len()
            invariant
                k <= self.repl_queue@.len(),
                queue == texts(self.repl_queue@),
                payload@ == joined(queue.subrange(0, k as int)),
            decreases self.repl_queue@.len() - k,
        {
            payload.append(self.repl_queue[k].as_str());
            proof {
                let upto = queue.subrange(0, k + 1);
                assert(upto.drop_last() =~= queue.subrange(0, k as int));
                assert(upto.last() == queue[k as int]);
            }
            k = k + 1;
        }
        assert(queue.subrange(0, k as int) =~= queue);
        (targets, payload)
    }

    /// Ends a flush: the followers under the connections `failed`, to which
    /// the write failed, are taken out of the registry and no longer counted,
    /// and the queue is cleared.
    pub fn propagate(&mut self, failed: &Vec<u64>)
        requires
            old(self).wf(),
        ensures
            final(self).wf(),
            final(self)@ == flushed(old(self)@, failed@),
    {
        let ghost before = self.replicas@;
        let mut left: Vec<Replica> = Vec::new();
        let mut i: usize = 0;
        assert(before.subrange(0, 0) =~= Seq::<Replica>::empty());
        while i < self.replicas.len()
            invariant
                i <= self.replicas@.len(),
                self.replicas@ == before,
                left@ == kept(before.subrange(0, i as int), failed@),
            decreases self.replicas@.len() - i,
        {
            let r = self.replicas[i];
            let gone = Self::holds(failed, r.conn);
            proof {
                let upto = before.subrange(0, i + 1);
                assert(upto.drop_last() =~= before.subrange(0, i as int));
                assert(upto.last() == r);
            }
            if !gone {
                left.push(r);
            }
            i = i + 1;
        }
        proof {
            assert(before.subrange(0, i as int) =~= before);
            lemma_kept(before, failed@);
        }
        self.replica_info.connected_slaves = left.len();
        self.replicas = left;
        self.repl_queue = Vec::new();
        assert(texts(self.repl_queue@) =~= Seq::<Seq<char>>::empty());
    }

    /// Whether `conn` is among `list`.
    fn holds(list: &Vec<u64>, conn: u64) -> (r: bool)
        ensures
            r == list@.contains(conn),
    {
        let mut i: usize = 0;
        while i < list.len()
            invariant
                i <= list@.len(),
                forall|k: int| 0 <= k < i ==> list@[k] != conn,
            decreases list@.len() - i,
        {
            if list[i] == conn {
                return true;
            }
            i = i + 1;
        }
        false
    }
}

} // verus!
