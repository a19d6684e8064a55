//! The handshake of a follower with its leader: four requests, each sent
//! when the reply to the one before has come.
//!
//! The steps are a state machine. What connects, sends and reads lives
//! outside this crate: it tells [`do_repl_handshake`] what happened, and
//! does what it is told.
use super::errors::ReplError;
use crate::resp::data::{DataType, Value};
use crate::resp::serialize::{arr, Serializer};
use crate::text::{chars_of, decimal, lower_text, to_lower, u64_to_string};
use vstd::prelude::*;

verus! {

/// Where a follower stands in the handshake.
#[derive(Debug, Clone, Copy, PartialEq, Eq, Structural)]
pub enum Step {
    /// Nothing was sent yet; the connection is about to be made.
    Connect,
    /// `PING` was sent.
    Ping,
    /// `REPLCONF listening-port` was sent.
    Listen,
    /// `REPLCONF capa` was sent.
    Capa,
    /// `PSYNC` was sent.
    PSync,
    /// The leader answered all four: the follower is attached.
    Attached,
    /// The handshake failed. A new one starts at `Connect`.
    Failed,
}

/// What happened on the connection to the leader.
#[derive(Debug, PartialEq, Eq)]
pub enum Event {
    /// The connection stands.
    Connected,
    /// The leader could not be reached.
    ConnectFailed,
    /// A reply came.
    Reply(DataType),
    /// Bytes came that are no value of the wire protocol.
    Unreadable,
    /// The connection was closed, or reading from it failed.
    Closed,
}

/// The mathematical model of an [`Event`].
pub enum EventModel {
    Connected,
    ConnectFailed,
    Reply(Value),
    Unreadable,
    Closed,
}

impl View for Event {
    type V = EventModel;

    open spec fn view(&self) -> EventModel {
        match self {
            Event::Connected => EventModel::Connected,
            Event::ConnectFailed => EventModel::ConnectFailed,
            Event::Reply(d) => EventModel::Reply(d@),
            Event::Unreadable => EventModel::Unreadable,
            Event::Closed => EventModel::Closed,
        }
    }
}

/// What is to be done next on the connection to the leader.
#[derive(Debug, PartialEq, Eq)]
pub enum Action {
    /// Send this request and wait for the reply.
    Send(String),
    /// The handshake is done: read the snapshot that follows.
    Finish,
    /// Give up with this error.
    Fail(ReplError),
}

/// The mathematical model of an [`Action`].
pub enum ActionModel {
    Send(Seq<char>),
    Finish,
    Fail(ReplError),
}

impl View for Action {
    type V = ActionModel;

    open spec fn view(&self) -> ActionModel {
        match self {
            Action::Send(s) => ActionModel::Send(s@),
            Action::Finish => ActionModel::Finish,
            Action::Fail(e) => ActionModel::Fail(*e),
        }
    }
}

/// `PING`
pub open spec fn ping_request() -> Seq<char> {
    arr(seq!["ping"@])
}

/// `REPLCONF listening-port <port>`
pub open spec fn listen_request(port: u16) -> Seq<char> {
    arr(seq!["REPLCONF"@, "listening-port"@, decimal(port as nat)])
}

/// `REPLCONF capa psync2`
pub open spec fn capa_request() -> Seq<char> {
    arr(seq!["REPLCONF"@, "capa"@, "psync2"@])
}

/// `PSYNC ? -1`
pub open spec fn psync_request() -> Seq<char> {
    arr(seq!["PSYNC"@, "?"@, "-1"@])
}

/// The reply to `PSYNC` that the handshake takes: a string that begins with
/// `FULLRESYNC`, whatever the case of the letters.
pub open spec fn is_full_resync(v: Value) -> bool {
    match v.string() {
        Some(t) => t.len() >= 10 && lower_text(t).subrange(0, 10) == seq![
            'f',
            'u',
            'l',
            'l',
            'r',
            'e',
            's',
            'y',
            'n',
            'c',
        ],
        None => false,
    }
}

/// Whether the reply is the one that the step waits for: `PONG`, `OK`, `OK`
/// and `FULLRESYNC ...`, whatever the case of the letters.
pub open spec fn accepts(step: Step, reply: Value) -> bool {
    match step {
        Step::Ping => reply.says("pong"@),
        Step::Listen => reply.says("ok"@),
        Step::Capa => reply.says("ok"@),
        Step::PSync => is_full_resync(reply),
        _ => false,
    }
}

/// The handshake of a follower that listens on `port`: the step that
/// follows `step` on `event`, and what is to be done.
///
/// Each request goes out when the reply to the one before has come. A leader
/// that cannot be reached is `FailedToConnect`; bytes that are no reply are
/// `InvalidResponse`; another reply than the expected one is
/// `UnexpectedResponse`; a connection that breaks off, and any event out of
/// turn, is `MasterHandshakeFailed`. After a failure the follower is not
/// attached.
pub open spec fn next(step: Step, event: EventModel, port: u16) -> (Step, ActionModel) {
    match (step, event) {
        (Step::Connect, EventModel::Connected) => (Step::Ping, ActionModel::Send(ping_request())),
        (_, EventModel::ConnectFailed) => (Step::Failed, ActionModel::Fail(ReplError::FailedToConnect)),
        (Step::Ping, EventModel::Reply(v)) => if accepts(step, v) {
            (Step::Listen, ActionModel::Send(listen_request(port)))
        } else {
            (Step::Failed, ActionModel::Fail(ReplError::UnexpectedResponse))
        },
        (Step::Listen, EventModel::Reply(v)) => if accepts(step, v) {
            (Step::Capa, ActionModel::Send(capa_request()))
        } else {
            (Step::Failed, ActionModel::Fail(ReplError::UnexpectedResponse))
        },
        (Step::Capa, EventModel::Reply(v)) => if accepts(step, v) {
            (Step::PSync, ActionModel::Send(psync_request()))
        } else {
            (Step::Failed, ActionModel::Fail(ReplError::UnexpectedResponse))
        },
        (Step::PSync, EventModel::Reply(v)) => if accepts(step, v) {
            (Step::Attached, ActionModel::Finish)
        } else {
            (Step::Failed, ActionModel::Fail(ReplError::UnexpectedResponse))
        },
        (Step::Ping, EventModel::Unreadable) => (
            Step::Failed,
            ActionModel::Fail(ReplError::InvalidResponse),
        ),
        (Step::Listen, EventModel::Unreadable) => (
            Step::Failed,
            ActionModel::Fail(ReplError::InvalidResponse),
        ),
        (Step::Capa, EventModel::Unreadable) => (
            Step::Failed,
            ActionModel::Fail(ReplError::InvalidResponse),
        ),
        (Step::PSync, EventModel::Unreadable) => (
            Step::Failed,
            ActionModel::Fail(ReplError::InvalidResponse),
        ),
        _ => (Step::Failed, ActionModel::Fail(ReplError::MasterHandshakeFailed)),
    }
}

/// A follower is attached only behind the accepted reply to `PSYNC`: every
/// other event, in every other step, leaves it unattached.
pub proof fn lemma_attached_only_after_psync(step: Step, event: EventModel, port: u16)
    ensures
        next(step, event, port).0 == Step::Attached <==> step == Step::PSync && (
        event matches EventModel::Reply(v) && is_full_resync(v)),
        next(step, event, port).0 == Step::Attached ==> next(step, event, port).1
            == ActionModel::Finish,
        event == EventModel::ConnectFailed ==> next(step, event, port) == (
            Step::Failed,
            ActionModel::Fail(ReplError::FailedToConnect),
        ),
{
}

/// The whole handshake: when the connection stands and the leader gives the
/// four expected replies, the four requests go out in their order, each
/// behind the reply to the one before, and the follower is attached.
pub proof fn lemma_handshake_completes(port: u16, pong: Value, ok1: Value, ok2: Value, full: Value)
    requires
        accepts(Step::Ping, pong),
        accepts(Step::Listen, ok1),
        accepts(Step::Capa, ok2),
        accepts(Step::PSync, full),
    ensures
        next(Step::Connect, EventModel::Connected, port) == (
            Step::Ping,
            ActionModel::Send(ping_request()),
        ),
        next(Step::Ping, EventModel::Reply(pong), port) == (
            Step::Listen,
            ActionModel::Send(listen_request(port)),
        ),
        next(Step::Listen, EventModel::Reply(ok1), port) == (
            Step::Capa,
            ActionModel::Send(capa_request()),
        ),
        next(Step::Capa, EventModel::Reply(ok2), port) == (
            Step::PSync,
            ActionModel::Send(psync_request()),
        ),
        next(Step::PSync, EventModel::Reply(full), port) == (Step::Attached, ActionModel::Finish),
{
}

/// A failure is final: no event leads out of it, nor out of the attached
/// state, to another step than the failure.
pub proof fn lemma_failure_is_final(event: EventModel, port: u16)
    ensures
        next(Step::Failed, event, port).0 == Step::Failed,
        next(Step::Attached, event, port).0 == Step::Failed,
        next(Step::Failed, event, port).1 is Fail,
{
}

/// The request of the first step.
pub fn do_follower_ping() -> (r: String)
    ensures
        r@ == ping_request(),
{
    let mut v: Vec<&str> = Vec::new();
    v.push("ping");
    assert(v@.map_values(|s: &str| s@) =~= seq!["ping"@]);
    Serializer::to_arr(v)
}

/// The request of the second step, for a follower that listens on `port`.
pub fn do_follower_listen(port: u16) -> (r: String)
    ensures
        r@ == listen_request(port),
{
    let number = u64_to_string(port as u64);
    let mut v: Vec<&str> = Vec::new();
    v.push("REPLCONF");
    v.push("listening-port");
    v.push(number.as_str());
    assert(v@.map_values(|s: &str| s@) =~= seq![
        "REPLCONF"@,
        "listening-port"@,
        decimal(port as nat),
    ]);
    Serializer::to_arr(v)
}

/// The request of the third step.
pub fn do_follower_capa() -> (r: String)
    ensures
        r@ == capa_request(),
{
    let mut v: Vec<&str> = Vec::new();
    v.push("REPLCONF");
    v.push("capa");
    v.push("psync2");
    assert(v@.map_values(|s: &str| s@) =~= seq!["REPLCONF"@, "capa"@, "psync2"@]);
    Serializer::to_arr(v)
}

/// The request of the fourth step.
pub fn do_follower_psync() -> (r: String)
    ensures
        r@ == psync_request(),
{
    let mut v: Vec<&str> = Vec::new();
    v.push("PSYNC");
    v.push("?");
    v.push("-1");
    assert(v@.map_values(|s: &str| s@) =~= seq!["PSYNC"@, "?"@, "-1"@]);
    Serializer::to_arr(v)
}

/// Whether the reply begins with `fullresync`.
fn full_resync_reply(reply: &DataType) -> (r: bool)
    ensures
        r == is_full_resync(reply@),
{
    let text = match reply {
        DataType::SimpleString(s) => s,
        DataType::BulkString(s) => s,
        _ => {
            return false;
        },
    };
    let folded = to_lower(text.as_str());
    let chars = chars_of(folded.as_str());
    if chars.len() < 10 {
        return false;
    }
    let ghost want = seq!['f', 'u', 'l', 'l', 'r', 'e', 's', 'y', 'n', 'c'];
    let got = chars[0] == 'f' && chars[1] == 'u' && chars[2] == 'l' && chars[3] == 'l' && chars[4]
        == 'r' && chars[5] == 'e' && chars[6] == 's' && chars[7] == 'y' && chars[8] == 'n'
        && chars[9] == 'c';
    proof {
        let head = chars@.subrange(0, 10);
        if got {
            assert(head =~= want);
        } else {
            if head == want {
                assert(head[0] == 'f' && head[1] == 'u' && head[2] == 'l' && head[3] == 'l');
                assert(head[4] == 'r' && head[5] == 'e' && head[6] == 's' && head[7] == 'y');
                assert(head[8] == 'n' && head[9] == 'c');
            }
        }
    }
    got
}

/// Whether the reply is the one that the step waits for.
pub fn accepted(step: Step, reply: &DataType) -> (r: bool)
    ensures
        r == accepts(step, reply@),
{
    match step {
        Step::Ping => reply.says("pong"),
        Step::Listen => reply.says("ok"),
        Step::Capa => reply.says("ok"),
        Step::PSync => full_resync_reply(reply),
        _ => false,
    }
}

/// One step of the handshake of a follower that listens on `port`.
pub fn do_repl_handshake(step: Step, event: Event, port: u16) -> (r: (Step, Action))
    ensures
        (r.0, r.1@) == next(step, event@, port),
{
    match event {
        Event::ConnectFailed => (Step::Failed, Action::Fail(ReplError::FailedToConnect)),
        Event::Connected => match step {
            Step::Connect => (Step::Ping, Action::Send(do_follower_ping())),
            _ => (Step::Failed, Action::Fail(ReplError::MasterHandshakeFailed)),
        },
        Event::Reply(reply) => {
            let good = accepted(step, &reply);
            match step {
                Step::Ping => if good {
                    (Step::Listen, Action::Send(do_follower_listen(port)))
                } else {
                    (Step::Failed, Action::Fail(ReplError::UnexpectedResponse))
                },
                Step::Listen => if good {
                    (Step::Capa, Action::Send(do_follower_capa()))
                } else {
                    (Step::Failed, Action::Fail(ReplError::UnexpectedResponse))
                },
                Step::Capa => if good {
                    (Step::PSync, Action::Send(do_follower_psync()))
                } else {
                    (Step::Failed, Action::Fail(ReplError::UnexpectedResponse))
                },
                Step::PSync => if good {
                    (Step::Attached, Action::Finish)
                } else {
                    (Step::Failed, Action::Fail(ReplError::UnexpectedResponse))
                },
                _ => (Step::Failed, Action::Fail(ReplError::MasterHandshakeFailed)),
            }
        },
        Event::Unreadable => match step {
            Step::Ping => (Step::Failed, Action::Fail(ReplError::InvalidResponse)),
            Step::Listen => (Step::Failed, Action::Fail(ReplError::InvalidResponse)),
            Step::Capa => (Step::Failed, Action::Fail(ReplError::InvalidResponse)),
            Step::PSync => (Step::Failed, Action::Fail(ReplError::InvalidResponse)),
            _ => (Step::Failed, Action::Fail(ReplError::MasterHandshakeFailed)),
        },
        Event::Closed => (Step::Failed, Action::Fail(ReplError::MasterHandshakeFailed)),
    }
}

} // verus!
