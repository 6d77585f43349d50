//! The rules of the two-tier DHT record store: records live in memory and
//! are persisted to disk with their expiry as a wall-clock time; expired
//! records are dropped when they are looked up, listed or swept; a record
//! found only on disk is copied back into memory.
//!
//! Times in memory are nanoseconds on the monotonic clock (counted from an
//! origin the driver picks); times on disk are read from the wall clock.

use vstd::prelude::*;

verus! {

/// A DHT record as it is kept on disk.
#[derive(Debug, Clone)]
pub struct StoredRecord {
    pub key: Vec<u8>,
    pub value: Vec<u8>,
    pub publisher: Option<Vec<u8>>,
    /// When the record expires, as written (see `stored_expiry`).
    pub expires: Option<u64>,
}

/// A point in time on the wall clock, in nanoseconds since the Unix epoch,
/// that `SystemTime` can still represent (its seconds fit an `i64`).
pub open spec fn wall_clock_representable(nanos: int) -> bool {
    0 <= nanos < 9223372036854775808 * 1000000000
}

/// The expiry written to disk for a record that expires `remaining`
/// nanoseconds from now, the wall clock reading `now_unix_nanos`: the
/// expiry's wall-clock time in nanoseconds, cut to 64 bits.
pub open spec fn stored_expiry(remaining: Option<u128>, now_unix_nanos: u128) -> Option<u64> {
    match remaining {
        Some(d) => Some((now_unix_nanos + d) as u64),
        None => None,
    }
}

/// The record to write to disk: key, value and publisher as they are, and
/// the expiry as `stored_expiry` gives it. Every record written has a
/// publisher; the time must stay within what `SystemTime` represents.
pub fn stored_from_record(
    key: Vec<u8>,
    value: Vec<u8>,
    publisher: Vec<u8>,
    remaining: Option<u128>,
    now_unix_nanos: u128,
) -> (r: StoredRecord)
    requires
        remaining matches Some(d) ==> wall_clock_representable(now_unix_nanos + d),
    ensures
        r.key@ == key@,
        r.value@ == value@,
        r.publisher matches Some(p) && p@ == publisher@,
        r.expires == stored_expiry(remaining, now_unix_nanos),
{
    let expires = match remaining {
        Some(d) => Some((now_unix_nanos + d) as u64),
        None => None,
    };
    StoredRecord { key, value, publisher: Some(publisher), expires }
}

/// How long a record read back from disk with written expiry `ts` still
/// lives, the wall clock reading `now_unix_nanos`: `ts` is read as seconds
/// since the epoch, and a time already past leaves nothing.
pub open spec fn reloaded_remaining(ts: u64, now_unix_nanos: u128) -> u128 {
    let at = ts as int * 1000000000;
    if at > now_unix_nanos { (at - now_unix_nanos) as u128 } else { 0 }
}

/// The remaining lifetime of a record read back from disk (see
/// `reloaded_remaining`); the written value must be a time `SystemTime`
/// can represent as seconds.
pub fn reload_remaining(ts: u64, now_unix_nanos: u128) -> (r: u128)
    requires
        ts <= i64::MAX,
    ensures
        r == reloaded_remaining(ts, now_unix_nanos),
{
    let at = (ts as u128) * 1000000000u128;
    if at > now_unix_nanos {
        at - now_unix_nanos
    } else {
        0
    }
}

/// Whether a record with expiry `expires` has expired at `now`, as a lookup
/// sees it: its expiry lies strictly before now.
pub open spec fn expired_at(expires: Option<u128>, now: u128) -> bool {
    match expires {
        Some(t) => t < now,
        None => false,
    }
}

/// Whether a record has expired at `now`, as a sweep or a listing sees it:
/// its expiry is not after now.
pub open spec fn swept_at(expires: Option<u128>, now: u128) -> bool {
    match expires {
        Some(t) => t <= now,
        None => false,
    }
}

/// Whether a record has expired at `now` for a lookup.
pub fn is_expired(expires: Option<u128>, now: u128) -> (r: bool)
    ensures
        r == expired_at(expires, now),
{
    match expires {
        Some(t) => t < now,
        None => false,
    }
}

/// Whether a record is due to be swept at `now`.
pub fn is_due(expires: Option<u128>, now: u128) -> (r: bool)
    ensures
        r == swept_at(expires, now),
{
    match expires {
        Some(t) => t <= now,
        None => false,
    }
}

/// The keys among `records` (key and expiry) that a sweep at `now` removes,
/// in order.
pub open spec fn due_keys(records: Seq<(Seq<u8>, Option<u128>)>, now: u128) -> Seq<Seq<u8>>
    decreases records.len(),
{
    if records.len() == 0 {
        Seq::empty()
    } else {
        let rest = due_keys(records.drop_last(), now);
        if swept_at(records.last().1, now) {
            rest.push(records.last().0)
        } else {
            rest
        }
    }
}

/// The values of a list of keys with expiries.
pub open spec fn keyed_view(v: Seq<(Vec<u8>, Option<u128>)>) -> Seq<(Seq<u8>, Option<u128>)> {
    v.map_values(|e: (Vec<u8>, Option<u128>)| (e.0@, e.1))
}

/// The values of a list of keys.
pub open spec fn keys_view(v: Seq<Vec<u8>>) -> Seq<Seq<u8>> {
    v.map_values(|k: Vec<u8>| k@)
}

/// The keys of the in-memory records a sweep at `now` removes.
pub fn expired_memory_keys(records: &Vec<(Vec<u8>, Option<u128>)>, now: u128) -> (r: Vec<Vec<u8>>)
    ensures
        keys_view(r@) == due_keys(keyed_view(records@), now),
{
    let ghost all = keyed_view(records@);
    let mut out: Vec<Vec<u8>> = Vec::new();
    let mut i: usize = 0;
    while i < records.len()
        invariant
            i <= records.len(),
            all == keyed_view(records@),
            keys_view(out@) == due_keys(all.subrange(0, i as int), now),
        decreases records.len() - i,
    {
        let ghost prefix = all.subrange(0, i + 1);
        assert(prefix.drop_last() == all.subrange(0, i as int));
        assert(prefix.last() == (records@[i as int].0@, records@[i as int].1));
        if is_due(records[i].1, now) {
            let k = crate::bytes::copy_bytes(records[i].0.as_slice());
            let ghost kv = k@;
            out.push(k);
            assert(keys_view(out@) =~= due_keys(all.subrange(0, i as int), now).push(kv));
        }
        i = i + 1;
    }
    assert(all.subrange(0, all.len() as int) == all);
    out
}

/// The keys of the stored records a sweep removes, the wall clock reading
/// `now_unix_nanos`: those whose written expiry is not after now. Entries
/// that could not be decoded (`None`) are kept.
pub open spec fn due_stored_keys(entries: Seq<(Seq<u8>, Option<Option<u64>>)>, now_unix_nanos: u64) -> Seq<Seq<u8>>
    decreases entries.len(),
{
    if entries.len() == 0 {
        Seq::empty()
    } else {
        let rest = due_stored_keys(entries.drop_last(), now_unix_nanos);
        match entries.last().1 {
            Some(Some(ts)) => if ts <= now_unix_nanos { rest.push(entries.last().0) } else { rest },
            _ => rest,
        }
    }
}

/// The values of a list of database entries (key, and the written expiry
/// of the decoded record, or `None` when it could not be decoded).
pub open spec fn stored_entries_view(v: Seq<(Vec<u8>, Option<StoredRecord>)>) -> Seq<(Seq<u8>, Option<Option<u64>>)> {
    v.map_values(|e: (Vec<u8>, Option<StoredRecord>)| (e.0@, match e.1 {
        Some(r) => Some(r.expires),
        None => None,
    }))
}

/// The keys of the database entries a sweep removes.
pub fn expired_stored_keys(entries: &Vec<(Vec<u8>, Option<StoredRecord>)>, now_unix_nanos: u64) -> (r: Vec<Vec<u8>>)
    ensures
        keys_view(r@) == due_stored_keys(stored_entries_view(entries@), now_unix_nanos),
{
    let ghost all = stored_entries_view(entries@);
    let mut out: Vec<Vec<u8>> = Vec::new();
    let mut i: usize = 0;
    while i < entries.len()
        invariant
            i <= entries.len(),
            all == stored_entries_view(entries@),
            keys_view(out@) == due_stored_keys(all.subrange(0, i as int), now_unix_nanos),
        decreases entries.len() - i,
    {
        let ghost prefix = all.subrange(0, i + 1);
        assert(prefix.drop_last() == all.subrange(0, i as int));
        assert(prefix.last() == all[i as int]);
        let due = match &entries[i].1 {
            Some(rec) => match rec.expires {
                Some(ts) => ts <= now_unix_nanos,
                None => false,
            },
            None => false,
        };
        if due {
            let k = crate::bytes::copy_bytes(entries[i].0.as_slice());
            let ghost kv = k@;
            out.push(k);
            assert(keys_view(out@) =~= due_stored_keys(all.subrange(0, i as int), now_unix_nanos).push(kv));
        }
        i = i + 1;
    }
    assert(all.subrange(0, all.len() as int) == all);
    out
}

/// The positions, in order, of the records in `expiries` that are still
/// live at `now`: for a listing of memory (`strict`), those not expired
/// strictly before now; for a listing of the disk, those expiring after now.
pub open spec fn live_positions(expiries: Seq<Option<u128>>, now: u128, strict: bool) -> Seq<usize>
    decreases expiries.len(),
{
    if expiries.len() == 0 {
        Seq::empty()
    } else {
        let rest = live_positions(expiries.drop_last(), now, strict);
        let e = expiries.last();
        let dead = if strict { expired_at(e, now) } else { swept_at(e, now) };
        if dead { rest } else { rest.push((expiries.len() - 1) as usize) }
    }
}

/// The positions of the records a listing yields (see `live_positions`).
pub fn live_indices(expiries: &Vec<Option<u128>>, now: u128, strict: bool) -> (r: Vec<usize>)
    ensures
        r@ == live_positions(expiries@, now, strict),
{
    let mut out: Vec<usize> = Vec::new();
    let mut i: usize = 0;
    while i < expiries.len()
        invariant
            i <= expiries.len(),
            out@ == live_positions(expiries@.subrange(0, i as int), now, strict),
        decreases expiries.len() - i,
    {
        let ghost prefix = expiries@.subrange(0, i + 1);
        assert(prefix.drop_last() == expiries@.subrange(0, i as int));
        let e = expiries[i];
        let dead = if strict { is_expired(e, now) } else { is_due(e, now) };
        if !dead {
            out.push(i);
        }
        i = i + 1;
    }
    assert(expiries@.subrange(0, expiries@.len() as int) == expiries@);
    out
}

/// What a lookup does next.
#[derive(Debug, Clone, Copy, PartialEq, Eq, Structural)]
pub enum LookupAction {
    /// Answer with the record found in memory.
    AnswerFromMemory,
    /// Remove the expired record from memory and answer that there is none.
    DropFromMemory,
    /// Nothing usable in memory: read the disk.
    ReadDisk,
    /// Remove the expired record from disk and answer that there is none.
    DropFromDisk,
    /// Copy the record read from disk into memory and answer with it.
    CacheAndAnswer,
    /// Answer that there is no record.
    Miss,
}

/// The step of a lookup after consulting memory: `found` is the expiry of
/// the record found there (`None` when there is none).
pub open spec fn memory_step(found: Option<Option<u128>>, now: u128) -> LookupAction {
    match found {
        Some(e) => if expired_at(e, now) { LookupAction::DropFromMemory } else { LookupAction::AnswerFromMemory },
        None => LookupAction::ReadDisk,
    }
}

/// The step of a lookup after reading the disk: `found` is the expiry, in
/// memory time, of the record read and decoded there (`None` when there is
/// none or it could not be read).
pub open spec fn disk_step(found: Option<Option<u128>>, now: u128) -> LookupAction {
    match found {
        Some(e) => if expired_at(e, now) { LookupAction::DropFromDisk } else { LookupAction::CacheAndAnswer },
        None => LookupAction::Miss,
    }
}

/// Decides a lookup's step after consulting memory.
pub fn after_memory_lookup(found: Option<Option<u128>>, now: u128) -> (r: LookupAction)
    ensures
        r == memory_step(found, now),
{
    match found {
        Some(e) => if is_expired(e, now) { LookupAction::DropFromMemory } else { LookupAction::AnswerFromMemory },
        None => LookupAction::ReadDisk,
    }
}

/// Decides a lookup's step after reading the disk.
pub fn after_disk_lookup(found: Option<Option<u128>>, now: u128) -> (r: LookupAction)
    ensures
        r == disk_step(found, now),
{
    match found {
        Some(e) => if is_expired(e, now) { LookupAction::DropFromDisk } else { LookupAction::CacheAndAnswer },
        None => LookupAction::Miss,
    }
}

/// A lookup never answers with an expired record: whichever tier it
/// answers from, the record's expiry is not before now.
pub proof fn lemma_lookup_answers_live(mem: Option<Option<u128>>, disk: Option<Option<u128>>, now: u128)
    ensures
        memory_step(mem, now) == LookupAction::AnswerFromMemory ==> !expired_at(mem->0, now),
        memory_step(mem, now) == LookupAction::ReadDisk && disk_step(disk, now) == LookupAction::CacheAndAnswer
            ==> !expired_at(disk->0, now),
        memory_step(mem, now) == LookupAction::ReadDisk ==> mem is None,
{
}

} // verus!
