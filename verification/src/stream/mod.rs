//! Streams: append-only logs of entries under IDs that only grow.
//!
//! An ID is a millisecond timestamp and a sequence number. [`resolve`] states
//! how an ID is chosen from what the caller gave, the last ID of the stream
//! and the clock; the functions of [`StreamID`] compute it.
pub mod errors;
pub mod order;
pub mod parse;
pub mod serialize;
pub mod store;

use self::errors::StreamError;
use self::parse::{convert, StreamIDParser};
use self::store::{last_id, Stream};
use crate::text::opt_text;
use vstd::prelude::*;

verus! {

/// The wildcard: the store picks this part of the ID.
pub const WC_STR: &'static str = "*";

/// The greatest ID, in a range.
pub const RANGE_GT: &'static str = "+";

/// The least ID, in a range.
pub const RANGE_LT: &'static str = "-";

/// `std::time::SystemTime`, of which nothing is known but that it exists.
#[verifier::external_type_specification]
#[verifier::external_body]
pub struct ExSystemTime(std::time::SystemTime);

/// `std::time::SystemTime::now`: the time of the system clock. Nothing is
/// promised of it: two calls may give any two times.
#[verifier::external_body]
fn system_now() -> std::time::SystemTime {
    std::time::SystemTime::now()
}

/// `std::time::SystemTime::duration_since` the Unix epoch: how long after
/// the epoch the time lies, or `None` where it lies before.
#[verifier::external_body]
fn since_epoch(t: &std::time::SystemTime) -> Option<std::time::Duration> {
    t.duration_since(std::time::UNIX_EPOCH).ok()
}

/// `std::time::Duration::as_millis`: the whole milliseconds of a duration.
#[verifier::external_body]
fn whole_millis(d: &std::time::Duration) -> u128 {
    d.as_millis()
}

/// The time of the system clock in milliseconds since the Unix epoch, cut to
/// a machine word; 0 where the clock stands before the epoch.
pub fn get_current_time() -> usize {
    let now = system_now();
    match since_epoch(&now) {
        Some(d) => {
            let millis = whole_millis(&d);
            (millis % 0x1_0000_0000_0000_0000u128) as u64 as usize
        },
        None => 0,
    }
}

/// An ID: a timestamp `id` and a sequence number `seq`, ordered by the
/// timestamp first.
#[derive(Debug, Clone, Copy, PartialEq, Eq, Ord, Structural)]
pub struct StreamID {
    pub id: usize,
    pub seq: usize,
}

impl Default for StreamID {
    /// The first ID of the millisecond that the clock gives.
    fn default() -> (r: Self)
        ensures
            r.seq == 0,
    {
        Self { id: get_current_time(), seq: 0 }
    }
}

/// The ID that the rules propose, before it is checked: each part as given,
/// or picked where it is a wildcard (`None`).
///
/// In an empty stream the timestamp is the one given or else the clock's, and
/// the sequence number the one given or else 0 (1 under the timestamp 0, so
/// that the ID is not `0-0`). Behind a last entry, a wildcard timestamp is the
/// clock's and the sequence number then follows the last entry's under the
/// same timestamp, or is 0; a wildcard sequence number under a given
/// timestamp does the same.
pub open spec fn candidate(
    id: Option<usize>,
    seq: Option<usize>,
    last: Option<StreamID>,
    now: usize,
) -> (int, int) {
    match last {
        None => {
            let t: int = match id {
                Some(t) => t as int,
                None => now as int,
            };
            let s: int = match seq {
                Some(s) => s as int,
                None => if t == 0 {
                    1
                } else {
                    0
                },
            };
            (t, s)
        },
        Some(l) => match (id, seq) {
            (None, _) => (
                now as int,
                if now == l.id {
                    l.seq + 1
                } else {
                    0
                },
            ),
            (Some(t), None) => (
                t as int,
                if t == l.id {
                    l.seq + 1
                } else {
                    0
                },
            ),
            (Some(t), Some(s)) => (t as int, s as int),
        },
    }
}

/// The ID `(t, s)` comes behind `last`.
pub open spec fn follows(t: int, s: int, last: Option<StreamID>) -> bool {
    match last {
        None => true,
        Some(l) => l.id < t || (l.id == t && l.seq < s),
    }
}

/// The ID of a new entry: the candidate, unless it is `0-0`
/// (`StreamIDZero`), or is not greater than the last ID or needs a sequence
/// number that no machine word holds (`InvalidStreamID`).
pub open spec fn resolve(
    id: Option<usize>,
    seq: Option<usize>,
    last: Option<StreamID>,
    now: usize,
) -> Result<StreamID, StreamError> {
    let (t, s) = candidate(id, seq, last, now);
    if t == 0 && s == 0 {
        Err(StreamError::StreamIDZero)
    } else if s > usize::MAX || !follows(t, s, last) {
        Err(StreamError::InvalidStreamID)
    } else {
        Ok(StreamID { id: t as usize, seq: s as usize })
    }
}

/// The ID of a new entry behind `last`, from the parts as they are written.
pub open spec fn try_valid(
    id: Seq<char>,
    seq: Option<Seq<char>>,
    last: Option<StreamID>,
    now: usize,
) -> Result<StreamID, StreamError> {
    match convert(id, seq) {
        Err(e) => Err(e),
        Ok((i, s)) => resolve(i, s, last, now),
    }
}

/// The last ID of a stream that may not exist yet.
pub open spec fn last_of(stream: Option<&Stream>) -> Option<StreamID> {
    match stream {
        Some(s) => last_id(s@),
        None => None,
    }
}

impl StreamID {
    /// `self` is less than `other`: by the timestamp, then by the sequence
    /// number.
    pub open spec fn less_than(self, other: StreamID) -> bool {
        self.id < other.id || (self.id == other.id && self.seq < other.seq)
    }

    pub fn new(id: usize, seq: usize) -> (r: Self)
        ensures
            r == (StreamID { id, seq }),
    {
        Self { id, seq }
    }

    /// Checks a proposed ID against the last one.
    fn checked(id: usize, seq: Option<usize>, last: Option<Self>) -> (r: Result<Self, StreamError>)
        ensures
            r == match seq {
                None => Err::<Self, StreamError>(StreamError::InvalidStreamID),
                Some(s) => if id == 0 && s == 0 {
                    Err(StreamError::StreamIDZero)
                } else if !follows(id as int, s as int, last) {
                    Err(StreamError::InvalidStreamID)
                } else {
                    Ok(StreamID { id, seq: s })
                },
            },
    {
        let seq = match seq {
            Some(s) => s,
            None => {
                return Err(StreamError::InvalidStreamID);
            },
        };
        if id == 0 && seq == 0 {
            return Err(StreamError::StreamIDZero);
        }
        match last {
            Some(l) => {
                if l.id < id || (l.id == id && l.seq < seq) {
                    Ok(Self::new(id, seq))
                } else {
                    Err(StreamError::InvalidStreamID)
                }
            },
            None => Ok(Self::new(id, seq)),
        }
    }

    /// Both parts are wildcards, behind `last`, at the time `now`.
    pub fn id_and_seq_wc(last: Self, now: usize) -> (r: Result<Self, StreamError>)
        ensures
            r == resolve(None, None, Some(last), now),
    {
        let seq = if now == last.id {
            last.seq.checked_add(1)
        } else {
            Some(0)
        };
        Self::checked(now, seq, Some(last))
    }

    /// The timestamp is a wildcard and a sequence number is given, behind
    /// `last`: the timestamp is the clock's and decides the sequence number,
    /// as where both are wildcards.
    pub fn id_wc(seq: usize, last: Self, now: usize) -> (r: Result<Self, StreamError>)
        ensures
            r == resolve(None, Some(seq), Some(last), now),
    {
        Self::id_and_seq_wc(last, now)
    }

    /// The timestamp is given and the sequence number is a wildcard, behind
    /// `last`.
    pub fn seq_wc(id: usize, last: Self) -> (r: Result<Self, StreamError>)
        ensures
            r == resolve(Some(id), None, Some(last), 0),
            forall|now: usize| r == #[trigger] resolve(Some(id), None, Some(last), now),
    {
        let seq = if id == last.id {
            last.seq.checked_add(1)
        } else {
            Some(0)
        };
        Self::checked(id, seq, Some(last))
    }

    /// Both parts are given, behind `last`.
    pub fn no_wc(id: usize, seq: usize, last: Self) -> (r: Result<Self, StreamError>)
        ensures
            r == resolve(Some(id), Some(seq), Some(last), 0),
            forall|now: usize| r == #[trigger] resolve(Some(id), Some(seq), Some(last), now),
    {
        Self::checked(id, Some(seq), Some(last))
    }

    /// The stream has no entry yet.
    pub fn no_last(id: Option<usize>, seq: Option<usize>, now: usize) -> (r: Result<
        Self,
        StreamError,
    >)
        ensures
            r == resolve(id, seq, None, now),
    {
        let id = match id {
            None => now,
            Some(id) => id,
        };
        let seq = match seq {
            None => if id == 0 {
                1
            } else {
                0
            },
            Some(seq) => seq,
        };
        Self::checked(id, Some(seq), None)
    }

    /// The ID of a new entry behind `last`, from the parts as numbers.
    pub fn resolved(id: Option<usize>, seq: Option<usize>, last: Option<Self>, now: usize) -> (r:
        Result<Self, StreamError>)
        ensures
            r == resolve(id, seq, last, now),
    {
        match last {
            Some(last) => match (id, seq) {
                (None, None) => Self::id_and_seq_wc(last, now),
                (None, Some(seq)) => Self::id_wc(seq, last, now),
                (Some(id), None) => Self::seq_wc(id, last),
                (Some(id), Some(seq)) => Self::no_wc(id, seq, last),
            },
            None => Self::no_last(id, seq, now),
        }
    }
}

impl StreamID {
    /// The ID of a new entry behind `last`, at the time `now`.
    pub fn try_valid_stream_id_at(
        id: String,
        seq: Option<String>,
        last: Option<Self>,
        now: usize,
    ) -> (r: Result<Self, StreamError>)
        ensures
            r == try_valid(id@, opt_text(seq), last, now),
    {
        match StreamIDParser::convert_to_usize_opt(id, seq) {
            Ok((id, seq)) => Self::resolved(id, seq, last, now),
            Err(e) => Err(e),
        }
    }

    /// The ID of a new entry behind `last`, at the time that the clock gives.
    pub fn try_valid_stream_id(id: String, seq: Option<String>, last: Option<Self>) -> (r: Result<
        Self,
        StreamError,
    >)
        ensures
            exists|now: usize| r == try_valid(id@, opt_text(seq), last, now),
    {
        let now = get_current_time();
        Self::try_valid_stream_id_at(id, seq, last, now)
    }

    /// The ID of a new entry of `stream`, at the time `now`.
    pub fn checked_new_at(id: String, seq: Option<String>, stream: Option<&Stream>, now: usize) -> (r:
        Result<Self, StreamError>)
        ensures
            r == try_valid(id@, opt_text(seq), last_of(stream), now),
    {
        match stream {
            Some(s) => match s.last_key_value() {
                Some((k, _)) => Self::try_valid_stream_id_at(id, seq, Some(*k), now),
                None => Self::try_valid_stream_id_at(id, seq, None, now),
            },
            None => Self::try_valid_stream_id_at(id, seq, None, now),
        }
    }

    /// The ID of a new entry of `stream`, at the time that the clock gives.
    pub fn checked_new(id: String, seq: Option<String>, stream: Option<&Stream>) -> (r: Result<
        Self,
        StreamError,
    >)
        ensures
            exists|now: usize| r == try_valid(id@, opt_text(seq), last_of(stream), now),
    {
        let now = get_current_time();
        Self::checked_new_at(id, seq, stream, now)
    }
}

/// An ID that resolves is not `0-0` and comes behind the last one.
pub proof fn lemma_resolved_follows(
    id: Option<usize>,
    seq: Option<usize>,
    last: Option<StreamID>,
    now: usize,
)
    ensures
        resolve(id, seq, last, now) matches Ok(uid) ==> !(uid.id == 0 && uid.seq == 0) && (
        last matches Some(l) ==> l.less_than(uid)),
        id == Some(0usize) && seq == Some(0usize) ==> resolve(id, seq, last, now) == Err::<
            StreamID,
            StreamError,
        >(StreamError::StreamIDZero),
{
}

/// Wildcards in one millisecond: on an empty stream `*` gives the sequence
/// number 0, and `*` again in the same millisecond gives 1.
pub proof fn lemma_wildcard_same_millisecond(now: usize)
    requires
        now > 0,
    ensures
        resolve(None, None, None, now) == Ok::<StreamID, StreamError>(StreamID { id: now, seq: 0 }),
        resolve(None, None, Some(StreamID { id: now, seq: 0 }), now) == Ok::<StreamID, StreamError>(
            StreamID { id: now, seq: 1 },
        ),
{
}

/// Wildcards as the clock advances: each `*` gives the sequence number 0.
pub proof fn lemma_wildcard_clock_advances(first: usize, second: usize)
    requires
        0 < first < second,
    ensures
        resolve(None, None, None, first) == Ok::<StreamID, StreamError>(
            StreamID { id: first, seq: 0 },
        ),
        resolve(None, None, Some(StreamID { id: first, seq: 0 }), second) == Ok::<
            StreamID,
            StreamError,
        >(StreamID { id: second, seq: 0 }),
{
}

} // verus!
