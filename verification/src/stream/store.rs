//! The stream store: streams by key, each a log of entries whose IDs only
//! grow.
use super::errors::StreamError;
use super::parse::StreamIDParser;
use super::{get_current_time, lemma_resolved_follows, resolve, try_valid, StreamID};
use crate::text::opt_text;
use vstd::hash_map::StringHashMap;
use vstd::prelude::*;

verus! {

/// The fields of an entry as texts: pairs of a name and a value, in order.
pub open spec fn fields_view(fields: Vec<(String, String)>) -> Seq<(Seq<char>, Seq<char>)> {
    Seq::new(fields@.len(), |i: int| (fields@[i].0@, fields@[i].1@))
}

/// The ID of the last entry, if there is one.
pub open spec fn last_id(entries: Seq<(StreamID, Seq<(Seq<char>, Seq<char>)>)>) -> Option<StreamID> {
    if entries.len() == 0 {
        None
    } else {
        Some(entries.last().0)
    }
}

/// Each entry has a greater ID than every entry before it.
pub open spec fn increasing(entries: Seq<(StreamID, Seq<(Seq<char>, Seq<char>)>)>) -> bool {
    forall|i: int, j: int| 0 <= i < j < entries.len() ==> (#[trigger] entries[i]).0.less_than((#[trigger] entries[j]).0)
}

/// One stream: its entries in the order of their IDs.
#[derive(Debug)]
pub struct Stream {
    entries: Vec<(StreamID, Vec<(String, String)>)>,
}

impl View for Stream {
    type V = Seq<(StreamID, Seq<(Seq<char>, Seq<char>)>)>;

    closed spec fn view(&self) -> Self::V {
        Seq::new(
            self.entries@.len(),
            |i: int| (self.entries@[i].0, fields_view(self.entries@[i].1)),
        )
    }
}

impl Stream {
    /// The IDs of the entries grow strictly.
    pub open spec fn wf(&self) -> bool {
        increasing(self@)
    }

    pub fn new() -> (r: Self)
        ensures
            r@ == Seq::<(StreamID, Seq<(Seq<char>, Seq<char>)>)>::empty(),
            r.wf(),
    {
        let r = Self { entries: Vec::new() };
        assert(r@ =~= Seq::empty());
        r
    }

    /// The number of entries.
    pub fn len(&self) -> (r: usize)
        ensures
            r == self@.len(),
    {
        self.entries.len()
    }

    /// The entry at `i`, counted from the least ID.
    pub fn get(&self, i: usize) -> (r: (&StreamID, &Vec<(String, String)>))
        requires
            i < self@.len(),
        ensures
            *r.0 == self@[i as int].0,
            fields_view(*r.1) == self@[i as int].1,
    {
        let e = &self.entries[i];
        (&e.0, &e.1)
    }

    /// The entry with the greatest ID.
    pub fn last_key_value(&self) -> (r: Option<(&StreamID, &Vec<(String, String)>)>)
        ensures
            match r {
                Some((k, v)) => self@.len() > 0 && *k == self@.last().0 && fields_view(*v)
                    == self@.last().1,
                None => self@.len() == 0,
            },
            last_id(self@) == match r {
                Some((k, v)) => Some(*k),
                None => None,
            },
    {
        let n = self.entries.len();
        if n == 0 {
            None
        } else {
            let e = &self.entries[n - 1];
            Some((&e.0, &e.1))
        }
    }

    /// Appends an entry, whose ID must be greater than the last one.
    pub fn insert(&mut self, uid: StreamID, values: Vec<(String, String)>)
        requires
            old(self).wf(),
            last_id(old(self)@) matches Some(l) ==> l.less_than(uid),
        ensures
            final(self).wf(),
            final(self)@ == old(self)@.push((uid, fields_view(values))),
    {
        self.entries.push((uid, values));
        proof {
            assert(final(self)@ =~= old(self)@.push((uid, fields_view(values))));
            let old_v = old(self)@;
            let new_v = final(self)@;
            assert forall|i: int, j: int| 0 <= i < j < new_v.len() implies (#[trigger] new_v[i]).0.less_than(
                (#[trigger] new_v[j]).0,
            ) by {
                if j < old_v.len() {
                    assert(new_v[i] == old_v[i]);
                    assert(new_v[j] == old_v[j]);
                } else {
                    assert(new_v[i] == old_v[i]);
                    let l = old_v.last();
                    if i < old_v.len() - 1 {
                        assert(old_v[i].0.less_than(old_v[old_v.len() - 1].0));
                    }
                }
            }
        }
    }

    /// All entries, in the order of their IDs.
    pub fn range(&self) -> (r: Vec<(&StreamID, &Vec<(String, String)>)>)
        ensures
            r@.len() == self@.len(),
            forall|i: int|
                0 <= i < r@.len() ==> *(#[trigger] r@[i]).0 == self@[i].0 && fields_view(*r@[i].1)
                    == self@[i].1,
    {
        let mut out: Vec<(&StreamID, &Vec<(String, String)>)> = Vec::new();
        let mut i: usize = 0;
        while i < self.entries.len()
            invariant
                i <= self.entries@.len(),
                out@.len() == i,
                forall|k: int|
                    0 <= k < out@.len() ==> *(#[trigger] out@[k]).0 == self@[k].0 && fields_view(
                        *out@[k].1,
                    ) == self@[k].1,
            decreases self.entries@.len() - i,
        {
            let e = &self.entries[i];
            out.push((&e.0, &e.1));
            i = i + 1;
        }
        out
    }
}

/// The entries under `key`: none where there is no such stream.
pub open spec fn stream_of(
    streams: Map<Seq<char>, Seq<(StreamID, Seq<(Seq<char>, Seq<char>)>)>>,
    key: Seq<char>,
) -> Seq<(StreamID, Seq<(Seq<char>, Seq<char>)>)> {
    if streams.contains_key(key) {
        streams[key]
    } else {
        Seq::empty()
    }
}

/// The ID that an append to the stream under `key` gets at the time `now`,
/// or why there is none. The parts of the ID are written out; `None` for
/// `seq` is a text without a second part.
pub open spec fn append_id(
    streams: Map<Seq<char>, Seq<(StreamID, Seq<(Seq<char>, Seq<char>)>)>>,
    key: Seq<char>,
    id: Seq<char>,
    seq: Option<Seq<char>>,
    now: usize,
) -> Result<StreamID, StreamError> {
    try_valid(id, seq, last_id(stream_of(streams, key)), now)
}

/// The streams with one more entry at the end of the stream under `key`, or
/// unchanged where there is no ID for it.
pub open spec fn with_entry(
    streams: Map<Seq<char>, Seq<(StreamID, Seq<(Seq<char>, Seq<char>)>)>>,
    key: Seq<char>,
    values: Seq<(Seq<char>, Seq<char>)>,
    uid: Result<StreamID, StreamError>,
) -> Map<Seq<char>, Seq<(StreamID, Seq<(Seq<char>, Seq<char>)>)>> {
    match uid {
        Ok(uid) => streams.insert(key, stream_of(streams, key).push((uid, values))),
        Err(_) => streams,
    }
}

/// The streams after an append: with the new entry at the end of the stream
/// under `key`, or unchanged where the ID was refused.
pub open spec fn append(
    streams: Map<Seq<char>, Seq<(StreamID, Seq<(Seq<char>, Seq<char>)>)>>,
    key: Seq<char>,
    values: Seq<(Seq<char>, Seq<char>)>,
    id: Seq<char>,
    seq: Option<Seq<char>>,
    now: usize,
) -> Map<Seq<char>, Seq<(StreamID, Seq<(Seq<char>, Seq<char>)>)>> {
    with_entry(streams, key, values, append_id(streams, key, id, seq, now))
}

/// Stream ordering: of two appends to one stream that both succeed, the
/// second gets the greater ID.
pub proof fn lemma_appends_increase(
    streams: Map<Seq<char>, Seq<(StreamID, Seq<(Seq<char>, Seq<char>)>)>>,
    key: Seq<char>,
    values: Seq<(Seq<char>, Seq<char>)>,
    id: Seq<char>,
    seq: Option<Seq<char>>,
    now: usize,
    next_id: Seq<char>,
    next_seq: Option<Seq<char>>,
    later: usize,
)
    ensures
        append_id(streams, key, id, seq, now) matches Ok(first) ==> (append_id(
            append(streams, key, values, id, seq, now),
            key,
            next_id,
            next_seq,
            later,
        ) matches Ok(second) ==> first.less_than(second)),
{
    match append_id(streams, key, id, seq, now) {
        Ok(first) => {
            let after = append(streams, key, values, id, seq, now);
            assert(after.contains_key(key));
            assert(last_id(stream_of(after, key)) == Some(first));
            match super::parse::convert(next_id, next_seq) {
                Ok((i, s)) => {
                    lemma_resolved_follows(i, s, Some(first), later);
                },
                Err(_) => {},
            }
        },
        Err(_) => {},
    }
}

/// The order holds in every state: where the IDs of every stream grow, they
/// still grow after an append, whatever it was given; and an append changes
/// no other stream.
pub proof fn lemma_append_keeps_order(
    streams: Map<Seq<char>, Seq<(StreamID, Seq<(Seq<char>, Seq<char>)>)>>,
    key: Seq<char>,
    values: Seq<(Seq<char>, Seq<char>)>,
    id: Seq<char>,
    seq: Option<Seq<char>>,
    now: usize,
)
    requires
        forall|k: Seq<char>| streams.contains_key(k) ==> increasing(#[trigger] streams[k]),
    ensures
        forall|k: Seq<char>|
            append(streams, key, values, id, seq, now).contains_key(k) ==> increasing(
                #[trigger] append(streams, key, values, id, seq, now)[k],
            ),
        forall|k: Seq<char>|
            k != key ==> (append(streams, key, values, id, seq, now).contains_key(k)
                <==> streams.contains_key(k)) && (streams.contains_key(k) ==> #[trigger] append(
                streams,
                key,
                values,
                id,
                seq,
                now,
            )[k] == streams[k]),
{
    let after = append(streams, key, values, id, seq, now);
    match append_id(streams, key, id, seq, now) {
        Ok(uid) => {
            let before = stream_of(streams, key);
            let grown = before.push((uid, values));
            match super::parse::convert(id, seq) {
                Ok((i, s)) => {
                    lemma_resolved_follows(i, s, last_id(before), now);
                },
                Err(_) => {},
            }
            if streams.contains_key(key) {
                assert(increasing(streams[key]));
            }
            assert forall|a: int, b: int| 0 <= a < b < grown.len() implies (#[trigger] grown[a]).0.less_than(
                (#[trigger] grown[b]).0,
            ) by {
                if b < before.len() {
                    assert(grown[a] == before[a]);
                    assert(grown[b] == before[b]);
                } else {
                    assert(grown[a] == before[a]);
                    if a < before.len() - 1 {
                        assert(before[a].0.less_than(before[before.len() - 1].0));
                    }
                }
            }
            assert forall|k: Seq<char>| after.contains_key(k) implies increasing(
                #[trigger] after[k],
            ) by {
                if k != key {
                    assert(streams.contains_key(k));
                    assert(after[k] == streams[k]);
                }
            }
        },
        Err(_) => {},
    }
}

/// The ID `0-0`, written out, is refused as `StreamIDZero` in every state and
/// at every time.
pub proof fn lemma_zero_id_refused(
    streams: Map<Seq<char>, Seq<(StreamID, Seq<(Seq<char>, Seq<char>)>)>>,
    key: Seq<char>,
    now: usize,
)
    ensures
        append_id(streams, key, seq!['0'], Some(seq!['0']), now) == Err::<StreamID, StreamError>(
            StreamError::StreamIDZero,
        ),
        append(streams, key, Seq::empty(), seq!['0'], Some(seq!['0']), now) == streams,
{
    let zero = seq!['0'];
    assert(zero.drop_last() =~= Seq::<char>::empty());
    assert(crate::text::digits_value(zero.drop_last()) == 0);
    assert(crate::text::digits_value(zero) == 0);
    assert(crate::text::is_digit(zero[0]));
    assert(crate::text::parse_unsigned(zero, usize::MAX as nat) == Some(0nat));
    assert(zero != seq!['*']) by {
        assert(zero[0] != seq!['*'][0]);
    }
    assert(zero != seq!['-']) by {
        assert(zero[0] != seq!['-'][0]);
    }
    assert(zero != seq!['+']) by {
        assert(zero[0] != seq!['+'][0]);
    }
}

/// The streams of an empty store.
pub open spec fn no_streams() -> Map<Seq<char>, Seq<(StreamID, Seq<(Seq<char>, Seq<char>)>)>> {
    Map::empty()
}

/// Streams by key. A stream comes into being with its first entry and is
/// never removed.
pub struct StreamStore {
    index: StringHashMap<usize>,
    streams: Vec<Stream>,
}

impl View for StreamStore {
    type V = Map<Seq<char>, Seq<(StreamID, Seq<(Seq<char>, Seq<char>)>)>>;

    closed spec fn view(&self) -> Self::V {
        Map::new(
            |k: Seq<char>| self.index@.contains_key(k),
            |k: Seq<char>| self.streams@[self.index@[k] as int]@,
        )
    }
}

impl Default for StreamStore {
    fn default() -> (r: Self)
        ensures
            r.wf(),
            r@ == no_streams(),
    {
        Self::new()
    }
}

impl StreamStore {
    /// Every key has a stream of its own, and the IDs of each stream grow
    /// strictly.
    pub closed spec fn wf(&self) -> bool {
        &&& forall|k: Seq<char>| #[trigger]
            self.index@.contains_key(k) ==> self.index@[k] < self.streams@.len()
        &&& forall|k1: Seq<char>, k2: Seq<char>|
            self.index@.contains_key(k1) && self.index@.contains_key(k2) && k1 != k2
                ==> #[trigger] self.index@[k1] != #[trigger] self.index@[k2]
        &&& forall|i: int| 0 <= i < self.streams@.len() ==> (#[trigger] self.streams@[i]).wf()
    }

    pub fn new() -> (r: Self)
        ensures
            r.wf(),
            r@ == no_streams(),
    {
        let r = Self { index: StringHashMap::new(), streams: Vec::new() };
        assert(r@ =~= Map::empty());
        r
    }

    /// In every state of the store, the IDs of each stream grow strictly.
    pub proof fn lemma_ids_increase(&self, key: Seq<char>)
        requires
            self.wf(),
            self@.contains_key(key),
        ensures
            increasing(self@[key]),
    {
        let i = self.index@[key] as int;
        assert(self.streams@[i].wf());
    }

    /// The stream under `key`, if there is one.
    pub fn try_read(&self, key: String) -> (r: Option<&Stream>)
        requires
            self.wf(),
        ensures
            match r {
                Some(s) => self@.contains_key(key@) && s@ == self@[key@] && s.wf(),
                None => !self@.contains_key(key@),
            },
    {
        match self.index.get(key.as_str()) {
            Some(i) => Some(&self.streams[*i]),
            None => None,
        }
    }

    /// Appends an entry under the ID that [`resolve`] gives for the parts
    /// `id` and `seq` at the time `now`; the stream is made where there is
    /// none.
    pub fn append_at(
        &mut self,
        key: String,
        values: Vec<(String, String)>,
        id: Option<usize>,
        seq: Option<usize>,
        now: usize,
    ) -> (r: Result<(usize, usize), StreamError>)
        requires
            old(self).wf(),
        ensures
            final(self).wf(),
            final(self)@ == with_entry(
                old(self)@,
                key@,
                fields_view(values),
                resolve(id, seq, last_id(stream_of(old(self)@, key@)), now),
            ),
            match r {
                Ok((t, s)) => resolve(id, seq, last_id(stream_of(old(self)@, key@)), now) == Ok::<
                    StreamID,
                    StreamError,
                >(StreamID { id: t, seq: s }),
                Err(e) => resolve(id, seq, last_id(stream_of(old(self)@, key@)), now) == Err::<
                    StreamID,
                    StreamError,
                >(e),
            },
    {
        let ghost before = self@;
        let found: Option<usize> = match self.index.get(key.as_str()) {
            Some(i) => Some(*i),
            None => None,
        };
        match found {
            Some(i) => {
                assert(self.streams@[i as int].wf());
                let last = match self.streams[i].last_key_value() {
                    Some((k, _)) => Some(*k),
                    None => None,
                };
                let uid = match StreamID::resolved(id, seq, last, now) {
                    Ok(uid) => uid,
                    Err(e) => {
                        return Err(e);
                    },
                };
                proof {
                    lemma_resolved_follows(id, seq, last, now);
                }
                let ghost fields = fields_view(values);
                self.streams[i].insert(uid, values);
                proof {
                    assert(final(self)@ =~= before.insert(
                        key@,
                        stream_of(before, key@).push((uid, fields)),
                    ));
                }
                Ok((uid.id, uid.seq))
            },
            None => {
                let uid = match StreamID::resolved(id, seq, None, now) {
                    Ok(uid) => uid,
                    Err(e) => {
                        return Err(e);
                    },
                };
                let ghost fields = fields_view(values);
                let mut stream = Stream::new();
                stream.insert(uid, values);
                let i = self.streams.len();
                self.streams.push(stream);
                self.index.insert(key, i);
                proof {
                    assert(final(self)@ =~= before.insert(
                        key@,
                        stream_of(before, key@).push((uid, fields)),
                    ));
                }
                Ok((uid.id, uid.seq))
            },
        }
    }

    /// Appends an entry to the stream under `key` at the time `now`, and
    /// gives its ID; the stream is made where there is none. The ID comes
    /// written out, in one part or two.
    pub fn try_write_at(
        &mut self,
        key: String,
        values: Vec<(String, String)>,
        stream_id: (String, Option<String>),
        now: usize,
    ) -> (r: Result<(usize, usize), StreamError>)
        requires
            old(self).wf(),
        ensures
            final(self).wf(),
            final(self)@ == append(
                old(self)@,
                key@,
                fields_view(values),
                stream_id.0@,
                opt_text(stream_id.1),
                now,
            ),
            match r {
                Ok((id, seq)) => append_id(
                    old(self)@,
                    key@,
                    stream_id.0@,
                    opt_text(stream_id.1),
                    now,
                ) == Ok::<StreamID, StreamError>(StreamID { id, seq }),
                Err(e) => append_id(old(self)@, key@, stream_id.0@, opt_text(stream_id.1), now)
                    == Err::<StreamID, StreamError>(e),
            },
    {
        let (id, seq) = stream_id;
        match StreamIDParser::convert_to_usize_opt(id, seq) {
            Ok((id, seq)) => self.append_at(key, values, id, seq, now),
            Err(e) => Err(e),
        }
    }

    /// Appends an entry to the stream under `key` at the time that the clock
    /// gives.
    pub fn try_write(
        &mut self,
        key: String,
        values: Vec<(String, String)>,
        stream_id: (String, Option<String>),
    ) -> (r: Result<(usize, usize), StreamError>)
        requires
            old(self).wf(),
        ensures
            final(self).wf(),
            exists|now: usize|
                {
                    &&& final(self)@ == append(
                        old(self)@,
                        key@,
                        fields_view(values),
                        stream_id.0@,
                        opt_text(stream_id.1),
                        now,
                    )
                    &&& match r {
                        Ok((id, seq)) => #[trigger] append_id(
                            old(self)@,
                            key@,
                            stream_id.0@,
                            opt_text(stream_id.1),
                            now,
                        ) == Ok::<StreamID, StreamError>(StreamID { id, seq }),
                        Err(e) => append_id(
                            old(self)@,
                            key@,
                            stream_id.0@,
                            opt_text(stream_id.1),
                            now,
                        ) == Err::<StreamID, StreamError>(e),
                    }
                },
    {
        let now = get_current_time();
        self.try_write_at(key, values, stream_id, now)
    }
}

} // verus!
