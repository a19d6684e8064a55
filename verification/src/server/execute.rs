//! What each command does: the reply that it gives and the state that it
//! leaves, as a function of the command, the state, the connection that it
//! came on and the time.
use super::command::{texts, Command, CommandModel, CommandResult};
use super::errors::CommandError;
use super::replicate::info::{replication_text, Role};
use super::store::file::{empty_store_file_bytes, snapshot_of, EMPTY};
use super::store::read;
use super::{register, with_replicas, Server, ServerModel};
use crate::resp::serialize::{arr, bulk_str, simple_err, simple_str, store_file, Serializer};
use crate::stream::errors::StreamError;
use crate::stream::serialize::{flat, id_text, StreamSerializer};
use crate::stream::store::{fields_view, last_id, stream_of, with_entry};
use crate::stream::{get_current_time, resolve, StreamID};
use crate::text::{i64_to_string, signed_decimal, str_eq};
use vstd::prelude::*;
use vstd::string::*;

verus! {

/// The reply to `GET` where there is no text to give: a null bulk string.
pub const NULL_BULK: &'static str = "$-1\r\n";

/// The message for an ID of `0-0`.
pub const ZERO_ID: &'static str = "The ID specified in XADD must be greater than 0-0";

/// The message for an ID that is not greater than the last one.
pub const TOP_ITEM: &'static str =
    "The ID specified in XADD is equal or smaller than the target stream top item";

/// What goes back to the connection: a text, for `PSYNC` a snapshot behind
/// it, and how the command ended.
#[derive(Debug, PartialEq, Eq)]
pub struct Response {
    pub text: String,
    pub payload: Option<Vec<u8>>,
    pub result: CommandResult,
}

/// The mathematical model of a [`Response`].
pub struct ResponseModel {
    pub text: Seq<char>,
    pub payload: Option<Seq<u8>>,
    pub result: CommandResult,
}

impl View for Response {
    type V = ResponseModel;

    open spec fn view(&self) -> ResponseModel {
        ResponseModel {
            text: self.text@,
            payload: match self.payload {
                Some(p) => Some(p@),
                None => None,
            },
            result: self.result,
        }
    }
}

/// What the outcome of a command stands for.
pub open spec fn answered(r: Result<Response, CommandError>) -> Result<ResponseModel, CommandError> {
    match r {
        Ok(resp) => Ok(resp@),
        Err(e) => Err(e),
    }
}

/// A reply of text alone.
pub open spec fn reply(text: Seq<char>) -> ResponseModel {
    ResponseModel { text, payload: None, result: CommandResult::Okay }
}

/// `GET`: the text under the key as a bulk string, or the null bulk string.
pub open spec fn get_reply(s: ServerModel, key: Seq<char>, now: u64) -> Seq<char> {
    match read(s.kv, key, now) {
        Some(v) => bulk_str(v),
        None => NULL_BULK@,
    }
}

/// `SET`: the queue, with `SET <key> <value>` at its end where this is a
/// leader with a follower.
pub open spec fn set_queue(s: ServerModel, key: Seq<char>, val: Seq<char>) -> Seq<Seq<char>> {
    if s.role == Role::Master && s.replicas.len() > 0 {
        s.repl_queue.push(arr(seq!["set"@, key, val]))
    } else {
        s.repl_queue
    }
}

/// `TYPE`: `string` for a key of the key-value store, `stream` for one of
/// the stream store, else `none`.
pub open spec fn type_reply(s: ServerModel, key: Seq<char>, now: u64) -> Seq<char> {
    if read(s.kv, key, now) is Some {
        simple_str("string"@)
    } else if s.streams.contains_key(key) {
        simple_str("stream"@)
    } else {
        simple_str("none"@)
    }
}

/// `XADD`: the ID of the new entry, from the two parts of the ID that the
/// command carries, each a number or a wildcard.
pub open spec fn xadd_id(
    s: ServerModel,
    key: Seq<char>,
    id: (Option<usize>, Option<usize>),
    now: u64,
) -> Result<StreamID, StreamError> {
    resolve(id.0, id.1, last_id(stream_of(s.streams, key)), now as usize)
}

/// `XADD`: the ID as a bulk string, or a simple error that tells why there
/// is none.
pub open spec fn xadd_reply(uid: Result<StreamID, StreamError>) -> Seq<char> {
    match uid {
        Ok(uid) => bulk_str(id_text(uid)),
        Err(StreamError::StreamIDZero) => simple_err(ZERO_ID@),
        Err(StreamError::InvalidStreamID) => simple_err(TOP_ITEM@),
    }
}

/// `XADD` as it goes to the followers: with the ID that the entry got.
pub open spec fn xadd_wire(
    key: Seq<char>,
    uid: StreamID,
    values: Seq<(Seq<char>, Seq<char>)>,
) -> Seq<char> {
    arr(seq!["xadd"@, key, id_text(uid)] + flat(values))
}

/// `XADD`: the queue, with the command at its end where an entry was
/// appended and this is a leader with a follower.
pub open spec fn xadd_queue(
    s: ServerModel,
    key: Seq<char>,
    uid: Result<StreamID, StreamError>,
    values: Seq<(Seq<char>, Seq<char>)>,
) -> Seq<Seq<char>> {
    match uid {
        Ok(uid) => if s.role == Role::Master && s.replicas.len() > 0 {
            s.repl_queue.push(xadd_wire(key, uid, values))
        } else {
            s.repl_queue
        },
        Err(_) => s.repl_queue,
    }
}

/// `PSYNC`: `+FULLRESYNC <replication id> <offset>`.
pub open spec fn full_resync(replid: Seq<char>, offset: isize) -> Seq<char> {
    simple_str("FULLRESYNC"@ + " "@ + replid + " "@ + signed_decimal(offset as int))
}

/// What a command does on the connection `conn` at the time `now`, in
/// milliseconds: the reply or the error, and the state that it leaves.
pub open spec fn step(cmd: CommandModel, s: ServerModel, conn: u64, now: u64) -> (
    Result<ResponseModel, CommandError>,
    ServerModel,
) {
    match cmd {
        CommandModel::PING => (Ok(reply(simple_str("PONG"@))), s),
        CommandModel::Echo(arg) => (Ok(reply(simple_str(arg))), s),
        CommandModel::Get(key) => (Ok(reply(get_reply(s, key, now))), s),
        CommandModel::SET { key, val, px } => (
            Ok(reply(simple_str("OK"@))),
            ServerModel {
                kv: crate::server::store::write(s.kv, key, val, px, now),
                repl_queue: set_queue(s, key, val),
                ..s
            },
        ),
        CommandModel::Info(section) => if section == "replication"@ {
            (
                Ok(
                    reply(
                        bulk_str(replication_text(s.role, s.master_replid, s.master_repl_offset)),
                    ),
                ),
                s,
            )
        } else {
            (Err(CommandError::CommandFailed), s)
        },
        CommandModel::ReplConf { port, capa } => (
            Ok(reply(simple_str("OK"@))),
            if port is Some {
                with_replicas(s, register(s.replicas, conn, port))
            } else {
                s
            },
        ),
        CommandModel::PSync(repl_id, _) => if repl_id == "?"@ && s.master_replid is Some {
            (
                Ok(
                    ResponseModel {
                        text: full_resync(s.master_replid->Some_0, s.master_repl_offset),
                        payload: Some(store_file(snapshot_of(EMPTY.spec_bytes()))),
                        result: CommandResult::ReplConf,
                    },
                ),
                with_replicas(s, register(s.replicas, conn, None)),
            )
        } else {
            (Err(CommandError::CommandFailed), s)
        },
        CommandModel::Tipe(key) => (Ok(reply(type_reply(s, key, now))), s),
        CommandModel::XAdd { key, id, values } => (
            Ok(reply(xadd_reply(xadd_id(s, key, id, now)))),
            ServerModel {
                streams: with_entry(s.streams, key, values, xadd_id(s, key, id, now)),
                repl_queue: xadd_queue(s, key, xadd_id(s, key, id, now), values),
                ..s
            },
        ),
    }
}

/// No command changes what the server is: its port, its leader, its role,
/// its replication ID and its offset, which so never falls. Only `SET`
/// changes the key-value store, only `XADD` the streams, only `REPLCONF` and
/// `PSYNC` the followers, and only `SET` and `XADD` the queue, which they
/// make longer by one command at most.
pub proof fn lemma_step_keeps_identity(cmd: CommandModel, s: ServerModel, conn: u64, now: u64)
    ensures
        step(cmd, s, conn, now).1.port == s.port,
        step(cmd, s, conn, now).1.master_ip == s.master_ip,
        step(cmd, s, conn, now).1.master_port == s.master_port,
        step(cmd, s, conn, now).1.role == s.role,
        step(cmd, s, conn, now).1.master_replid == s.master_replid,
        step(cmd, s, conn, now).1.master_repl_offset == s.master_repl_offset,
        !(cmd is SET) ==> step(cmd, s, conn, now).1.kv == s.kv,
        !(cmd is XAdd) ==> step(cmd, s, conn, now).1.streams == s.streams,
        !(cmd is ReplConf || cmd is PSync) ==> step(cmd, s, conn, now).1.replicas == s.replicas
            && step(cmd, s, conn, now).1.connected_slaves == s.connected_slaves,
        !(cmd is SET || cmd is XAdd) ==> step(cmd, s, conn, now).1.repl_queue == s.repl_queue,
        step(cmd, s, conn, now).1.repl_queue == s.repl_queue || (step(
            cmd,
            s,
            conn,
            now,
        ).1.repl_queue.len() == s.repl_queue.len() + 1 && step(
            cmd,
            s,
            conn,
            now,
        ).1.repl_queue.drop_last() == s.repl_queue),
        step(cmd, s, conn, now).0 is Err ==> step(cmd, s, conn, now).1 == s,
{
    let after = step(cmd, s, conn, now).1;
    if after.repl_queue != s.repl_queue {
        assert(after.repl_queue.drop_last() =~= s.repl_queue);
    }
}

/// A reply of text alone.
fn respond(text: String) -> (r: Response)
    ensures
        r@ == reply(text@),
{
    Response { text, payload: None, result: CommandResult::Okay }
}

impl Command {
    /// `PING`: the reply `+PONG`.
    pub fn do_ping() -> (r: String)
        ensures
            r@ == simple_str("PONG"@),
    {
        Serializer::to_simple_str("PONG")
    }

    /// `ECHO`: the text as a simple string.
    pub fn do_echo(arg: &str) -> (r: String)
        ensures
            r@ == simple_str(arg@),
    {
        Serializer::to_simple_str(arg)
    }

    /// `GET`: the text under the key at the time `now`, or the null bulk
    /// string.
    pub fn do_get(key: String, server: &Server, now: u64) -> (r: String)
        ensures
            r@ == get_reply(server@, key@, now),
    {
        match server.store.kv_store.read_at(key, now) {
            Some(v) => Serializer::to_bulk_str(v.as_str()),
            None => NULL_BULK.to_owned(),
        }
    }

    /// `SET`: writes the text at the time `now`, and queues the command for
    /// the followers of a leader.
    pub fn do_set(key: String, val: String, exp: Option<u64>, server: &mut Server, now: u64) -> (r:
        String)
        requires
            old(server).wf(),
        ensures
            final(server).wf(),
            r@ == simple_str("OK"@),
            final(server)@ == (ServerModel {
                kv: crate::server::store::write(old(server)@.kv, key@, val@, exp, now),
                repl_queue: set_queue(old(server)@, key@, val@),
                ..old(server)@
            }),
    {
        let resp = match server.store.kv_store.write_at(key.clone(), val.clone(), exp, now) {
            Ok(_) => Serializer::to_simple_str("OK"),
            Err(_) => NULL_BULK.to_owned(),
        };
        let leads = match server.replica_info.role {
            Role::Master => true,
            Role::Slave => false,
        };
        if leads && server.replicas.len() > 0 {
            let mut cmd_vec: Vec<&str> = Vec::new();
            cmd_vec.push("set");
            cmd_vec.push(key.as_str());
            cmd_vec.push(val.as_str());
            assert(cmd_vec@.map_values(|s: &str| s@) =~= seq!["set"@, key@, val@]);
            let cmd = Serializer::to_arr(cmd_vec);
            let ghost queue = texts(server.repl_queue@);
            server.repl_queue.push(cmd);
            assert(texts(server.repl_queue@) =~= queue.push(cmd@));
        }
        resp
    }

    /// `TYPE`: the store that holds the key at the time `now`.
    pub fn do_tipe(key: String, server: &Server, now: u64) -> (r: String)
        requires
            server.wf(),
        ensures
            r@ == type_reply(server@, key@, now),
    {
        match server.store.kv_store.read_at(key.clone(), now) {
            Some(_) => Serializer::to_simple_str("string"),
            None => match server.store.stream_store.try_read(key) {
                Some(_) => Serializer::to_simple_str("stream"),
                None => Serializer::to_simple_str("none"),
            },
        }
    }

    /// `INFO`: what the section `replication` shows; no other section is
    /// known.
    pub fn do_info(info_type: &str, server: &Server) -> (r: Result<String, CommandError>)
        ensures
            r matches Ok(text) ==> info_type@ == "replication"@ && text@ == bulk_str(
                replication_text(server@.role, server@.master_replid, server@.master_repl_offset),
            ),
            r matches Err(e) ==> info_type@ != "replication"@ && e == CommandError::CommandFailed,
    {
        if str_eq(info_type, "replication") {
            let text = server.replica_info.to_string();
            Ok(Serializer::to_bulk_str(text.as_str()))
        } else {
            Err(CommandError::CommandFailed)
        }
    }

    /// `REPLCONF`: registers the connection where a port is given.
    pub fn do_repl_conf(port: Option<u16>, server: &mut Server, conn: u64) -> (r: String)
        requires
            old(server).wf(),
        ensures
            final(server).wf(),
            r@ == simple_str("OK"@),
            final(server)@ == (if port is Some {
                with_replicas(old(server)@, register(old(server)@.replicas, conn, port))
            } else {
                old(server)@
            }),
    {
        match port {
            Some(_) => {
                server.register(conn, port);
            },
            None => {},
        }
        Serializer::to_simple_str("OK")
    }

    /// `PSYNC`: for the replication ID `?` on a server that has one of its
    /// own, the reply, the framed snapshot that goes behind it, and the
    /// connection registered.
    pub fn do_psync(repl_id: String, server: &mut Server, conn: u64) -> (r: Result<
        (String, Vec<u8>),
        CommandError,
    >)
        requires
            old(server).wf(),
        ensures
            final(server).wf(),
            match r {
                Ok((text, file)) => {
                    &&& repl_id@ == "?"@
                    &&& old(server)@.master_replid matches Some(id) && text@ == full_resync(
                        id,
                        old(server)@.master_repl_offset,
                    )
                    &&& file@ == store_file(snapshot_of(EMPTY.spec_bytes()))
                    &&& final(server)@ == with_replicas(
                        old(server)@,
                        register(old(server)@.replicas, conn, None),
                    )
                },
                Err(e) => {
                    &&& !(repl_id@ == "?"@ && old(server)@.master_replid is Some)
                    &&& e == CommandError::CommandFailed
                    &&& final(server)@ == old(server)@
                },
            },
    {
        if !str_eq(repl_id.as_str(), "?") {
            return Err(CommandError::CommandFailed);
        }
        let mut command_str = "FULLRESYNC".to_owned();
        match &server.replica_info.master_replid {
            Some(id) => {
                command_str.append(" ");
                command_str.append(id.as_str());
            },
            None => {
                return Err(CommandError::CommandFailed);
            },
        }
        command_str.append(" ");
        let offset = i64_to_string(server.replica_info.master_repl_offset as i64);
        command_str.append(offset.as_str());
        let resync = Serializer::to_simple_str(command_str.as_str());
        let file = Serializer::store_file(empty_store_file_bytes());
        server.register(conn, None);
        Ok((resync, file))
    }

    /// The ID as text: `<timestamp>-<sequence>`.
    fn id_string(id: usize, seq: usize) -> (r: String)
        ensures
            r@ == id_text(StreamID { id, seq }),
    {
        let mut text = crate::text::u64_to_string(id as u64);
        text.append("-");
        let second = crate::text::u64_to_string(seq as u64);
        text.append(second.as_str());
        proof {
            reveal_strlit("-");
            assert(text@ =~= id_text(StreamID { id, seq }));
        }
        text
    }

    /// The reply that tells why an entry got no ID.
    fn xadd_refused(e: StreamError) -> (r: String)
        ensures
            r@ == xadd_reply(Err(e)),
    {
        match e {
            StreamError::StreamIDZero => Serializer::to_simple_err(ZERO_ID),
            StreamError::InvalidStreamID => Serializer::to_simple_err(TOP_ITEM),
        }
    }

    /// `XADD`: appends the entry at the time `now`, and queues the command,
    /// with the ID that the entry got, for the followers of a leader.
    pub fn do_xadd(
        key: String,
        values: Vec<(String, String)>,
        stream_id: (Option<usize>, Option<usize>),
        server: &mut Server,
        now: u64,
    ) -> (r: String)
        requires
            old(server).wf(),
        ensures
            final(server).wf(),
            r@ == xadd_reply(xadd_id(old(server)@, key@, stream_id, now)),
            final(server)@ == (ServerModel {
                streams: with_entry(
                    old(server)@.streams,
                    key@,
                    fields_view(values),
                    xadd_id(old(server)@, key@, stream_id, now),
                ),
                repl_queue: xadd_queue(
                    old(server)@,
                    key@,
                    xadd_id(old(server)@, key@, stream_id, now),
                    fields_view(values),
                ),
                ..old(server)@
            }),
    {
        let (id, seq) = stream_id;
        let leads = match server.replica_info.role {
            Role::Master => true,
            Role::Slave => false,
        };
        if !(leads && server.replicas.len() > 0) {
            return match server.store.stream_store.append_at(key, values, id, seq, now as usize) {
                Ok((id, seq)) => Serializer::to_bulk_str(Self::id_string(id, seq).as_str()),
                Err(e) => Self::xadd_refused(e),
            };
        }
        let last = match server.store.stream_store.try_read(key.clone()) {
            Some(stream) => match stream.last_key_value() {
                Some((k, _)) => Some(*k),
                None => None,
            },
            None => None,
        };
        let uid = match StreamID::resolved(id, seq, last, now as usize) {
            Ok(uid) => uid,
            Err(e) => {
                return Self::xadd_refused(e);
            },
        };
        proof {
            crate::stream::lemma_resolved_follows(id, seq, last, now as usize);
        }
        let text = Self::id_string(uid.id, uid.seq);
        let mut head: Vec<&str> = Vec::new();
        head.push("xadd");
        head.push(key.as_str());
        head.push(text.as_str());
        assert(head@.map_values(|s: &str| s@) =~= seq!["xadd"@, key@, id_text(uid)]);
        let list = StreamSerializer::flat_strs(&values, head);
        let cmd = Serializer::to_arr(list);
        let ghost queue = texts(server.repl_queue@);
        let reply = Serializer::to_bulk_str(text.as_str());
        match server.store.stream_store.append_at(
            key,
            values,
            Some(uid.id),
            Some(uid.seq),
            now as usize,
        ) {
            Ok(_) => {},
            Err(_) => {},
        }
        server.repl_queue.push(cmd);
        assert(texts(server.repl_queue@) =~= queue.push(cmd@));
        reply
    }

    /// Runs the command on the connection `conn` at the time `now`, in
    /// milliseconds.
    pub fn execute_at(self, server: &mut Server, conn: u64, now: u64) -> (r: Result<
        Response,
        CommandError,
    >)
        requires
            old(server).wf(),
        ensures
            final(server).wf(),
            (answered(r), final(server)@) == step(self@, old(server)@, conn, now),
    {
        match self {
            Command::PING => Ok(respond(Command::do_ping())),
            Command::Echo(s) => Ok(respond(Command::do_echo(s.as_str()))),
            Command::Get(key) => Ok(respond(Command::do_get(key, server, now))),
            Command::SET { key, val, px } => Ok(
                respond(Command::do_set(key, val, px, server, now)),
            ),
            Command::Info(v) => match Command::do_info(v.as_str(), server) {
                Ok(text) => Ok(respond(text)),
                Err(e) => Err(e),
            },
            Command::ReplConf { port, capa: _ } => Ok(
                respond(Command::do_repl_conf(port, server, conn)),
            ),
            Command::PSync(repl_id, _) => match Command::do_psync(repl_id, server, conn) {
                Ok((text, file)) => Ok(
                    Response { text, payload: Some(file), result: CommandResult::ReplConf },
                ),
                Err(e) => Err(e),
            },
            Command::Tipe(key) => Ok(respond(Command::do_tipe(key, server, now))),
            Command::XAdd { key, id, values } => Ok(
                respond(Command::do_xadd(key, values, id, server, now)),
            ),
        }
    }

    /// Runs the command on the connection `conn` at the time that the clock
    /// gives.
    pub fn execute(self, server: &mut Server, conn: u64) -> (r: Result<Response, CommandError>)
        requires
            old(server).wf(),
        ensures
            final(server).wf(),
            exists|now: u64|
                (answered(r), final(server)@) == #[trigger] step(self@, old(server)@, conn, now),
    {
        let now = get_current_time() as u64;
        self.execute_at(server, conn, now)
    }
}

} // verus!
