use vstd::prelude::*;

use std::collections::HashMap;

use crate::ids::{id_to_text, uuid_text};
use crate::session::{
    decode_record, encodable, encode_record, lemma_record_round_trip, parse_record,
    record_bytes, RecordView, SessionRecord, StoreError,
};

verus! {

broadcast use vstd::std_specs::hash::group_hash_axioms;

/// The cache key of a session: the canonical text of its id.
pub fn session_key(id: u128) -> (r: String)
    ensures
        r@ == uuid_text(id),
{
    id_to_text(id)
}

/// What saving a record asks of the backing cache: store `bytes` under the record's key, to
/// expire there at `expire_at` (absolute, seconds since the epoch), in one command.
pub struct CacheWrite {
    pub id: u128,
    pub bytes: Vec<u8>,
    pub expire_at: u64,
}

/// Whether a record can be saved: its counts and lengths fit their prefixes, and its expiry
/// is not before the epoch (a cache takes no earlier expiry time).
pub open spec fn storable(v: RecordView) -> bool {
    encodable(v) && v.expiry >= 0
}

/// The cache write that saves a record.
pub fn save_command(record: &SessionRecord) -> (r: Result<CacheWrite, StoreError>)
    ensures
        storable(record@) ==> (r matches Ok(w) && w.id == record.id && w.bytes@ == record_bytes(
            record@,
        ) && w.expire_at == record.expiry),
        !storable(record@) ==> r is Err && r->Err_0 == StoreError::Encode,
{
    if record.expiry < 0 {
        return Err(StoreError::Encode);
    }
    match encode_record(record) {
        Ok(bytes) => Ok(CacheWrite { id: record.id, bytes, expire_at: record.expiry as u64 }),
        Err(e) => Err(e),
    }
}

/// What loading `id` yields, given what the cache answered for its key at time `now`: a live
/// record of that id, `None` when the key is absent or the record has expired (whether or not
/// the cache has evicted it yet), and the cache's own failure unchanged.
pub open spec fn load_verdict(
    id: u128,
    fetched: Result<Option<Seq<u8>>, StoreError>,
    now: i64,
) -> Result<Option<RecordView>, StoreError> {
    match fetched {
        Err(e) => Err(e),
        Ok(None) => Ok(None),
        Ok(Some(b)) => match parse_record(b) {
            None => Err(StoreError::Decode),
            Some(v) => if v.id != id {
                Err(StoreError::Decode)
            } else if now < v.expiry {
                Ok(Some(v))
            } else {
                Ok(None)
            },
        },
    }
}

pub open spec fn fetched_view(f: Result<Option<&[u8]>, StoreError>) -> Result<
    Option<Seq<u8>>,
    StoreError,
> {
    match f {
        Err(e) => Err(e),
        Ok(None) => Ok(None),
        Ok(Some(b)) => Ok(Some(b@)),
    }
}

pub open spec fn loaded_view(r: Result<Option<SessionRecord>, StoreError>) -> Result<
    Option<RecordView>,
    StoreError,
> {
    match r {
        Err(e) => Err(e),
        Ok(None) => Ok(None),
        Ok(Some(x)) => Ok(Some(x@)),
    }
}

/// Decides a load from what the cache answered for the session's key.
pub fn load_outcome(id: u128, fetched: Result<Option<&[u8]>, StoreError>, now: i64) -> (r: Result<
    Option<SessionRecord>,
    StoreError,
>)
    ensures
        loaded_view(r) == load_verdict(id, fetched_view(fetched), now),
{
    match fetched {
        Err(e) => Err(e),
        Ok(None) => Ok(None),
        Ok(Some(bytes)) => match decode_record(bytes) {
            Err(e) => Err(e),
            Ok(record) => if record.id != id {
                Err(StoreError::Decode)
            } else if now < record.expiry {
                Ok(Some(record))
            } else {
                Ok(None)
            },
        },
    }
}

/// The cache contents after saving a record: its bytes under its id, with its expiry.
pub open spec fn stored_after_save(m: Map<u128, (Seq<u8>, i64)>, v: RecordView) -> Map<
    u128,
    (Seq<u8>, i64),
> {
    m.insert(v.id, (record_bytes(v), v.expiry))
}

/// The cache contents after deleting a session.
pub open spec fn stored_after_delete(m: Map<u128, (Seq<u8>, i64)>, id: u128) -> Map<
    u128,
    (Seq<u8>, i64),
> {
    m.remove(id)
}

/// What loading `id` from cache contents `m` yields at time `now`.
pub open spec fn load_from(m: Map<u128, (Seq<u8>, i64)>, id: u128, now: i64) -> Result<
    Option<RecordView>,
    StoreError,
> {
    load_verdict(
        id,
        Ok(
            if m.contains_key(id) {
                Some(m[id].0)
            } else {
                None
            },
        ),
        now,
    )
}

/// A record that was saved loads back equal to itself while it is live.
pub proof fn lemma_save_then_load(m: Map<u128, (Seq<u8>, i64)>, v: RecordView, now: i64)
    requires
        encodable(v),
        now < v.expiry,
    ensures
        load_from(stored_after_save(m, v), v.id, now) == Ok::<Option<RecordView>, StoreError>(
            Some(v),
        ),
{
    lemma_record_round_trip(v);
}

/// A session that was deleted loads as absent.
pub proof fn lemma_delete_then_load(m: Map<u128, (Seq<u8>, i64)>, id: u128, now: i64)
    ensures
        load_from(stored_after_delete(m, id), id, now) == Ok::<Option<RecordView>, StoreError>(
            None,
        ),
{
}

/// A record whose expiry has passed loads as absent, though its key is still in the cache.
pub proof fn lemma_expired_record_is_absent(
    m: Map<u128, (Seq<u8>, i64)>,
    v: RecordView,
    now: i64,
)
    requires
        encodable(v),
        m.contains_key(v.id),
        m[v.id].0 == record_bytes(v),
        v.expiry <= now,
    ensures
        load_from(m, v.id, now) == Ok::<Option<RecordView>, StoreError>(None),
{
    lemma_record_round_trip(v);
}

/// Saves of two different sessions do not interfere: either order leaves the same contents,
/// and a save leaves every other session's load as it was.
pub proof fn lemma_saves_of_distinct_ids_commute(
    m: Map<u128, (Seq<u8>, i64)>,
    a: RecordView,
    b: RecordView,
    other: u128,
    now: i64,
)
    requires
        a.id != b.id,
        other != a.id,
    ensures
        stored_after_save(stored_after_save(m, a), b) == stored_after_save(
            stored_after_save(m, b),
            a,
        ),
        load_from(stored_after_save(m, a), other, now) == load_from(m, other, now),
{
    assert(stored_after_save(stored_after_save(m, a), b) =~= stored_after_save(
        stored_after_save(m, b),
        a,
    ));
    assert(stored_after_save(m, a).contains_key(other) == m.contains_key(other));
}

/// A save and a delete of the same session, in either order, leave exactly what the later one
/// alone would have left: never a mixture of the two.
pub proof fn lemma_last_writer_wins(m: Map<u128, (Seq<u8>, i64)>, v: RecordView)
    ensures
        stored_after_delete(stored_after_save(m, v), v.id) == stored_after_delete(m, v.id),
        stored_after_save(stored_after_delete(m, v.id), v) == stored_after_save(m, v),
{
    assert(stored_after_delete(stored_after_save(m, v), v.id) =~= stored_after_delete(m, v.id));
    assert(stored_after_save(stored_after_delete(m, v.id), v) =~= stored_after_save(m, v));
}

/// An in-process backing cache for the session store, for tests and single-instance use.
/// It can be switched off to stand for an unreachable cache.
pub struct MemoryStore {
    entries: HashMap<u128, (Vec<u8>, i64)>,
    available: bool,
}

impl MemoryStore {
    /// What the cache holds: the stored bytes and expiry under each session id.
    pub closed spec fn contents(&self) -> Map<u128, (Seq<u8>, i64)> {
        self.entries@.map_values(|e: (Vec<u8>, i64)| (e.0@, e.1))
    }

    pub closed spec fn is_available(&self) -> bool {
        self.available
    }

    pub fn new() -> (r: MemoryStore)
        ensures
            r.contents() == Map::<u128, (Seq<u8>, i64)>::empty(),
            r.is_available(),
    {
        let r = MemoryStore { entries: HashMap::new(), available: true };
        proof {
            assert(r.contents() =~= Map::<u128, (Seq<u8>, i64)>::empty());
        }
        r
    }

    /// Makes the cache reachable or unreachable.
    pub fn set_available(&mut self, available: bool)
        ensures
            final(self).contents() == old(self).contents(),
            final(self).is_available() == available,
    {
        self.available = available;
    }

    /// Whether the cache physically holds a key for `id`, live or not.
    pub fn holds_key(&self, id: u128) -> (r: bool)
        ensures
            r == self.contents().contains_key(id),
    {
        self.entries.contains_key(&id)
    }

    /// Saves (inserts or replaces) a record under its id.
    pub fn save(&mut self, record: &SessionRecord) -> (r: Result<(), StoreError>)
        ensures
            final(self).is_available() == old(self).is_available(),
            !old(self).is_available() ==> r == Err::<(), StoreError>(StoreError::Backend)
                && final(self).contents() == old(self).contents(),
            old(self).is_available() && !storable(record@) ==> r == Err::<(), StoreError>(
                StoreError::Encode,
            ) && final(self).contents() == old(self).contents(),
            old(self).is_available() && storable(record@) ==> r is Ok && final(self).contents()
                == stored_after_save(old(self).contents(), record@),
    {
        if !self.available {
            return Err(StoreError::Backend);
        }
        match save_command(record) {
            Err(e) => Err(e),
            Ok(w) => {
                self.entries.insert(w.id, (w.bytes, record.expiry));
                proof {
                    assert(self.contents() =~= stored_after_save(old(self).contents(), record@));
                }
                Ok(())
            },
        }
    }

    /// Loads the live record of `id`, if any, at time `now`.
    pub fn load(&self, id: u128, now: i64) -> (r: Result<Option<SessionRecord>, StoreError>)
        ensures
            !self.is_available() ==> r is Err && r->Err_0 == StoreError::Backend,
            self.is_available() ==> loaded_view(r) == load_from(self.contents(), id, now),
    {
        if !self.available {
            return Err(StoreError::Backend);
        }
        match self.entries.get(&id) {
            None => load_outcome(id, Ok(None), now),
            Some(entry) => load_outcome(id, Ok(Some(entry.0.as_slice())), now),
        }
    }

    /// Deletes the session `id`; deleting an absent session is no error.
    pub fn delete(&mut self, id: u128) -> (r: Result<(), StoreError>)
        ensures
            final(self).is_available() == old(self).is_available(),
            !old(self).is_available() ==> r == Err::<(), StoreError>(StoreError::Backend)
                && final(self).contents() == old(self).contents(),
            old(self).is_available() ==> r is Ok && final(self).contents() == stored_after_delete(
                old(self).contents(),
                id,
            ),
    {
        if !self.available {
            return Err(StoreError::Backend);
        }
        self.entries.remove(&id);
        proof {
            assert(self.contents() =~= stored_after_delete(old(self).contents(), id));
        }
        Ok(())
    }
}

} // verus!
