//! The key-value store: texts by key, each with an optional time at which it
//! expires. An expired entry is not removed; a read passes over it.
pub mod errors;
pub mod file;

use self::errors::StoreError;
use crate::stream::get_current_time;
use crate::stream::store::StreamStore;
use vstd::prelude::*;

verus! {

/// The time, in milliseconds, at which an entry written at `now` expires.
pub open spec fn deadline(exp: Option<u64>, now: u64) -> Option<u128> {
    match exp {
        Some(d) => Some((now + d) as u128),
        None => None,
    }
}

/// An entry with this expiry counts as absent at the time `now`.
pub open spec fn expired(expiry: Option<u128>, now: u64) -> bool {
    match expiry {
        Some(e) => e <= now,
        None => false,
    }
}

/// What a read of `key` gives at the time `now`: the text under the key,
/// unless it has expired.
pub open spec fn read(
    entries: Map<Seq<char>, (Seq<char>, Option<u128>)>,
    key: Seq<char>,
    now: u64,
) -> Option<Seq<char>> {
    if entries.contains_key(key) && !expired(entries[key].1, now) {
        Some(entries[key].0)
    } else {
        None
    }
}

/// The entries after a write at the time `now`: the new text stands under
/// the key, with a new expiry or none, whatever stood there.
pub open spec fn write(
    entries: Map<Seq<char>, (Seq<char>, Option<u128>)>,
    key: Seq<char>,
    val: Seq<char>,
    exp: Option<u64>,
    now: u64,
) -> Map<Seq<char>, (Seq<char>, Option<u128>)> {
    entries.insert(key, (val, deadline(exp, now)))
}

/// Expiry holds on: a key that a read finds expired stays absent at every
/// later time, in the same entries.
pub proof fn lemma_expired_stays_absent(
    entries: Map<Seq<char>, (Seq<char>, Option<u128>)>,
    key: Seq<char>,
    now: u64,
    later: u64,
)
    requires
        entries.contains_key(key),
        expired(entries[key].1, now),
        now <= later,
    ensures
        read(entries, key, now) is None,
        read(entries, key, later) is None,
{
}

/// A text comes back from the time it is written until its expiry, and not
/// from then on.
pub proof fn lemma_read_after_write(
    entries: Map<Seq<char>, (Seq<char>, Option<u128>)>,
    key: Seq<char>,
    val: Seq<char>,
    exp: Option<u64>,
    now: u64,
    at: u64,
)
    requires
        now <= at,
    ensures
        read(write(entries, key, val, exp, now), key, at) == match exp {
            Some(d) => if at < now + d {
                Some(val)
            } else {
                None
            },
            None => Some(val),
        },
{
}

/// An entry of the key-value store: a text, and the time at which it
/// expires, in milliseconds, if it does.
#[derive(Debug)]
pub struct KVStoreValue {
    val: String,
    expiry: Option<u128>,
}

impl View for KVStoreValue {
    type V = (Seq<char>, Option<u128>);

    closed spec fn view(&self) -> Self::V {
        (self.val@, self.expiry)
    }
}

impl KVStoreValue {
    /// An entry written at the time `now`, in milliseconds, that expires
    /// `exp` milliseconds later, or never.
    pub fn new(val: String, exp: Option<u64>, now: u64) -> (r: Self)
        ensures
            r@ == (val@, deadline(exp, now)),
    {
        let expiry: Option<u128> = match exp {
            Some(d) => Some(now as u128 + d as u128),
            None => None,
        };
        Self { val, expiry }
    }

    /// Whether the entry counts as absent at the time `now`.
    pub fn is_expired(&self, now: u64) -> (r: bool)
        ensures
            r == expired(self@.1, now),
    {
        match self.expiry {
            Some(exp) => exp <= now as u128,
            None => false,
        }
    }

    /// The text, unless the entry has expired.
    pub fn to_val(&self, now: u64) -> (r: Option<&String>)
        ensures
            match r {
                Some(s) => !expired(self@.1, now) && s@ == self@.0,
                None => expired(self@.1, now),
            },
    {
        if self.is_expired(now) {
            None
        } else {
            Some(&self.val)
        }
    }
}

/// A `hashbrown::HashMap` from keys to entries.
#[verifier::external_body]
pub struct KVMap {
    inner: hashbrown::HashMap<String, KVStoreValue>,
}

/// The entries of an empty store.
pub open spec fn no_entries() -> Map<Seq<char>, (Seq<char>, Option<u128>)> {
    Map::empty()
}

/// What a map holds: for each key its text and expiry.
pub uninterp spec fn kv_entries(m: KVMap) -> Map<Seq<char>, (Seq<char>, Option<u128>)>;

/// `hashbrown::HashMap::new`: a map that holds nothing.
#[verifier::external_body]
fn kv_new() -> (r: KVMap)
    ensures
        kv_entries(r) == no_entries(),
{
    KVMap { inner: hashbrown::HashMap::new() }
}

/// `hashbrown::HashMap::get`: the entry under the key, if the map holds one.
#[verifier::external_body]
fn kv_get<'a>(m: &'a KVMap, key: &String) -> (r: Option<&'a KVStoreValue>)
    ensures
        match r {
            Some(v) => kv_entries(*m).contains_key(key@) && kv_entries(*m)[key@] == v@,
            None => !kv_entries(*m).contains_key(key@),
        },
{
    m.inner.get(key)
}

/// `hashbrown::HashMap::remove`: takes out the entry under the key, if the
/// map holds one, and leaves every other entry.
#[verifier::external_body]
fn kv_remove(m: &mut KVMap, key: &String) -> (r: Option<KVStoreValue>)
    ensures
        kv_entries(*final(m)) == kv_entries(*old(m)).remove(key@),
        match r {
            Some(v) => kv_entries(*old(m)).contains_key(key@) && kv_entries(*old(m))[key@] == v@,
            None => !kv_entries(*old(m)).contains_key(key@),
        },
{
    m.inner.remove(key)
}

/// `hashbrown::HashMap::insert`: puts the entry under the key, in place of
/// what stood there, and leaves every other entry.
#[verifier::external_body]
fn kv_insert(m: &mut KVMap, key: String, value: KVStoreValue)
    ensures
        kv_entries(*final(m)) == kv_entries(*old(m)).insert(key@, value@),
{
    m.inner.insert(key, value);
}

/// The key-value store.
pub struct KVStore {
    inner: KVMap,
}

impl View for KVStore {
    type V = Map<Seq<char>, (Seq<char>, Option<u128>)>;

    closed spec fn view(&self) -> Self::V {
        kv_entries(self.inner)
    }
}

impl Default for KVStore {
    fn default() -> (r: Self)
        ensures
            r@ == no_entries(),
    {
        Self::new()
    }
}

impl KVStore {
    pub fn new() -> (r: Self)
        ensures
            r@ == no_entries(),
    {
        Self { inner: kv_new() }
    }

    /// The text under `key` at the time `now`, in milliseconds.
    pub fn read_at(&self, key: String, now: u64) -> (r: Option<&String>)
        ensures
            match r {
                Some(s) => read(self@, key@, now) == Some(s@),
                None => read(self@, key@, now) is None,
            },
    {
        match kv_get(&self.inner, &key) {
            Some(store_val) => store_val.to_val(now),
            None => None,
        }
    }

    /// The text under `key` at the time that the clock gives.
    pub fn try_read(&self, key: String) -> (r: Option<&String>)
        ensures
            exists|now: u64|
                match r {
                    Some(s) => #[trigger] read(self@, key@, now) == Some(s@),
                    None => read(self@, key@, now) is None,
                },
    {
        let now = get_current_time() as u64;
        self.read_at(key, now)
    }

    /// Puts `val` under `key` at the time `now`, in milliseconds, to expire
    /// `exp` milliseconds later, or never.
    pub fn write_at(&mut self, key: String, val: String, exp: Option<u64>, now: u64) -> (r: Result<
        (),
        StoreError,
    >)
        ensures
            r is Ok,
            final(self)@ == write(old(self)@, key@, val@, exp, now),
    {
        let store_val = KVStoreValue::new(val, exp, now);
        let _ = kv_remove(&mut self.inner, &key);
        kv_insert(&mut self.inner, key, store_val);
        assert(final(self)@ =~= write(old(self)@, key@, val@, exp, now));
        Ok(())
    }

    /// Puts `val` under `key` at the time that the clock gives.
    pub fn try_write(&mut self, key: String, val: String, exp: Option<u64>) -> (r: Result<
        (),
        StoreError,
    >)
        ensures
            r is Ok,
            exists|now: u64| final(self)@ == #[trigger] write(old(self)@, key@, val@, exp, now),
    {
        let now = get_current_time() as u64;
        self.write_at(key, val, exp, now)
    }
}

/// The two stores of a server.
pub struct Store {
    pub kv_store: KVStore,
    pub stream_store: StreamStore,
}

impl Default for Store {
    fn default() -> (r: Self)
        ensures
            r.kv_store@ == no_entries(),
            r.stream_store@ == crate::stream::store::no_streams(),
            r.stream_store.wf(),
    {
        Self::new()
    }
}

impl Store {
    pub fn new() -> (r: Self)
        ensures
            r.kv_store@ == no_entries(),
            r.stream_store@ == crate::stream::store::no_streams(),
            r.stream_store.wf(),
    {
        Self { kv_store: KVStore::new(), stream_store: StreamStore::new() }
    }
}

} // verus!
