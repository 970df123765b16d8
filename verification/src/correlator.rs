//! Pairing of read begin/end events into completed operations. One map,
//! keyed by the combined thread-group/process identity, holds the pending
//! operation for each key: a begin-event inserts (overwriting any pending
//! entry for the same key), a matching end-event removes and completes, and
//! an end-event with no pending begin is discarded silently. Entries are
//! never pruned any other way.

use vstd::prelude::*;

use std::collections::HashMap;

use crate::event::ReadEvent;
use crate::raw::{RawReadEvent, RawReadEventExit};

verus! {

broadcast use vstd::std_specs::hash::group_hash_axioms;

/// The correlation key of one logical in-flight operation: the thread-group
/// id in the high 32 bits, the process id in the low 32 bits.
pub open spec fn spec_key(gid: u32, pid: u32) -> u64 {
    (gid * 0x100000000 + pid) as u64
}

/// Builds the correlation key from a thread-group id and a process id.
pub fn correlation_key(gid: u32, pid: u32) -> (r: u64)
    ensures
        r == spec_key(gid, pid),
{
    (gid as u64) * 0x100000000 + (pid as u64)
}

/// The pending operation a begin-event leaves in the map: the decoded read
/// with the begin-side timestamp and no end yet.
pub open spec fn spec_pending(raw: RawReadEvent, now: u64) -> ReadEvent {
    ReadEvent {
        pid: raw.pid,
        gid: raw.gid,
        fd: raw.fd,
        count: raw.count,
        start_time: now,
        end_time: None,
    }
}

/// The completed operation an end-event produces from a pending one: the
/// same read with the end-side timestamp filled in.
pub open spec fn spec_completed(pending: ReadEvent, now: u64) -> ReadEvent {
    ReadEvent {
        pid: pending.pid,
        gid: pending.gid,
        fd: pending.fd,
        count: pending.count,
        start_time: pending.start_time,
        end_time: Some(now),
    }
}

/// The measured duration of a completed operation, in the timestamps' own
/// unit: end minus start, zero when the end is missing or earlier.
pub open spec fn spec_duration(e: ReadEvent) -> u64 {
    match e.end_time {
        Some(t1) => if t1 >= e.start_time {
            (t1 - e.start_time) as u64
        } else {
            0u64
        },
        None => 0u64,
    }
}

/// The measured duration of a completed operation.
pub fn duration_micros(e: &ReadEvent) -> (r: u64)
    ensures
        r == spec_duration(*e),
{
    match e.end_time {
        Some(t1) => {
            if t1 >= e.start_time {
                t1 - e.start_time
            } else {
                0u64
            }
        },
        None => 0u64,
    }
}

/// The map after a begin-event: the pending operation for the event's key,
/// inserted over whatever was there.
pub open spec fn spec_begin(
    m: Map<u64, ReadEvent>,
    raw: RawReadEvent,
    now: u64,
) -> Map<u64, ReadEvent> {
    m.insert(spec_key(raw.gid, raw.pid), spec_pending(raw, now))
}

/// The map and emitted event after an end-event: when the key is pending,
/// the entry is removed and the completed operation is emitted; otherwise
/// nothing changes and nothing is emitted.
pub open spec fn spec_end(
    m: Map<u64, ReadEvent>,
    raw: RawReadEventExit,
    now: u64,
) -> (Map<u64, ReadEvent>, Option<ReadEvent>) {
    let key = spec_key(raw.gid, raw.pid);
    if m.contains_key(key) {
        (m.remove(key), Some(spec_completed(m[key], now)))
    } else {
        (m, None)
    }
}

/// The correlator's state: the pending operation per key.
pub struct Correlator {
    pending: HashMap<u64, ReadEvent>,
}

impl Correlator {
    /// The pending operations, as a map from key to decoded begin-event.
    pub closed spec fn view(&self) -> Map<u64, ReadEvent> {
        self.pending@
    }

    /// Creates a correlator with nothing pending.
    pub fn new() -> (r: Correlator)
        ensures
            r@ == Map::<u64, ReadEvent>::empty(),
    {
        Correlator { pending: HashMap::new() }
    }

    /// How many operations are pending.
    pub fn pending_len(&self) -> (r: usize)
        ensures
            r == self@.dom().len(),
    {
        self.pending.len()
    }

    /// Handles a begin-event: decodes it with the begin-side timestamp and
    /// makes it the key's pending operation, overwriting any earlier one.
    pub fn begin(&mut self, raw: &RawReadEvent, now: u64)
        ensures
            final(self)@ == spec_begin(old(self)@, *raw, now),
    {
        let key: u64 = correlation_key(raw.gid, raw.pid);
        let event = ReadEvent::from_raw(raw, now);
        let _ = self.pending.insert(key, event);
    }

    /// Handles an end-event: when its key has a pending operation, removes
    /// it and returns it completed with the end-side timestamp; otherwise
    /// returns nothing and changes nothing.
    pub fn end(&mut self, raw: &RawReadEventExit, now: u64) -> (r: Option<ReadEvent>)
        ensures
            final(self)@ == spec_end(old(self)@, *raw, now).0,
            r == spec_end(old(self)@, *raw, now).1,
    {
        let key: u64 = correlation_key(raw.gid, raw.pid);
        match self.pending.remove(&key) {
            Some(pending) => Some(
                ReadEvent {
                    pid: pending.pid,
                    gid: pending.gid,
                    fd: pending.fd,
                    count: pending.count,
                    start_time: pending.start_time,
                    end_time: Some(now),
                },
            ),
            None => None,
        }
    }
}

/// A begin-event followed by its matching end-event completes exactly one
/// operation: the end-event removes the pending entry and emits one event
/// whose start is the begin-side timestamp, whose end is the end-side
/// timestamp, and whose measured duration is their difference.
pub proof fn lemma_matched_pair_completes(
    m: Map<u64, ReadEvent>,
    rb: RawReadEvent,
    t0: u64,
    re: RawReadEventExit,
    t1: u64,
)
    requires
        spec_key(re.gid, re.pid) == spec_key(rb.gid, rb.pid),
        t0 <= t1,
    ensures
        spec_end(spec_begin(m, rb, t0), re, t1).1 == Some(
            spec_completed(spec_pending(rb, t0), t1),
        ),
        spec_end(spec_begin(m, rb, t0), re, t1).0 == spec_begin(m, rb, t0).remove(
            spec_key(rb.gid, rb.pid),
        ),
        spec_duration(spec_end(spec_begin(m, rb, t0), re, t1).1.unwrap()) == t1 - t0,
{
}

/// An end-event whose key has no pending begin emits nothing and leaves
/// the pending map unchanged.
pub proof fn lemma_unmatched_end_is_silent(m: Map<u64, ReadEvent>, re: RawReadEventExit, t1: u64)
    requires
        !m.contains_key(spec_key(re.gid, re.pid)),
    ensures
        spec_end(m, re, t1).0 == m,
        spec_end(m, re, t1).1 is None,
{
}

/// A second begin-event for a key with an operation already pending
/// overwrites it: only the later begin-side timestamp is retained, exactly
/// as if the first begin had never happened.
pub proof fn lemma_second_begin_overwrites(
    m: Map<u64, ReadEvent>,
    rb0: RawReadEvent,
    t0: u64,
    rb1: RawReadEvent,
    t1: u64,
)
    requires
        spec_key(rb1.gid, rb1.pid) == spec_key(rb0.gid, rb0.pid),
    ensures
        spec_begin(spec_begin(m, rb0, t0), rb1, t1) == spec_begin(m, rb1, t1),
{
    assert(spec_begin(spec_begin(m, rb0, t0), rb1, t1) =~= spec_begin(m, rb1, t1));
}

/// Operations under distinct keys never disturb each other: a begin-event
/// or end-event for one key leaves the pending state of every other key
/// exactly as it was.
pub proof fn lemma_distinct_keys_independent(
    m: Map<u64, ReadEvent>,
    rb: RawReadEvent,
    re: RawReadEventExit,
    t: u64,
    other: u64,
)
    requires
        spec_key(rb.gid, rb.pid) != other,
        spec_key(re.gid, re.pid) != other,
    ensures
        spec_begin(m, rb, t).contains_key(other) == m.contains_key(other),
        m.contains_key(other) ==> spec_begin(m, rb, t)[other] == m[other],
        spec_end(m, re, t).0.contains_key(other) == m.contains_key(other),
        m.contains_key(other) ==> spec_end(m, re, t).0[other] == m[other],
{
}

/// Distinct process identities have distinct correlation keys: the key is
/// injective in the (thread-group id, process id) pair.
pub proof fn lemma_key_injective(gid1: u32, pid1: u32, gid2: u32, pid2: u32)
    requires
        spec_key(gid1, pid1) == spec_key(gid2, pid2),
    ensures
        gid1 == gid2,
        pid1 == pid2,
{
    assert(gid1 * 0x100000000 + pid1 == gid2 * 0x100000000 + pid2) by {
        assert(gid1 * 0x100000000 + pid1 <= u64::MAX) by (nonlinear_arith)
            requires gid1 <= u32::MAX && pid1 <= u32::MAX;
        assert(gid2 * 0x100000000 + pid2 <= u64::MAX) by (nonlinear_arith)
            requires gid2 <= u32::MAX && pid2 <= u32::MAX;
    }
    assert(gid1 == gid2 && pid1 == pid2) by (nonlinear_arith)
        requires
            gid1 * 0x100000000 + pid1 == gid2 * 0x100000000 + pid2,
            gid1 <= u32::MAX,
            pid1 <= u32::MAX,
            gid2 <= u32::MAX,
            pid2 <= u32::MAX;
}

} // verus!
