//! Running aggregation: per category, a rank map from a category-specific
//! key to an accumulated score, and an append-only list of rendered log
//! lines. Nothing is ever evicted; both grow for the life of the process.
//! Rank maps are association lists with unique keys; queries sort by
//! descending score at read time, as a snapshot.

use vstd::prelude::*;
use vstd::multiset::Multiset;

use crate::correlator::spec_duration;
use crate::event::{
    spec_render_execve, spec_render_exit, spec_render_openat, spec_render_read, spec_render_xdp,
    StalkEvent,
};

verus! {

broadcast use vstd::seq_lib::group_to_multiset_ensures;

/// A score update that sticks at the top instead of wrapping around.
pub open spec fn spec_sat_add(a: u64, b: u64) -> u64 {
    if a + b <= u64::MAX {
        (a + b) as u64
    } else {
        u64::MAX
    }
}

/// Adds to the score of `key` in an association-list rank map: the first
/// entry with that key gets the amount added to its score; a key with no
/// entry is appended with the amount as its score.
pub open spec fn spec_rank_add<KV>(entries: Seq<(KV, u64)>, key: KV, amount: u64) -> Seq<
    (KV, u64),
>
    decreases entries.len(),
{
    if entries.len() == 0 {
        seq![(key, amount)]
    } else if entries[0].0 == key {
        seq![(key, spec_sat_add(entries[0].1, amount))] + entries.drop_first()
    } else {
        seq![entries[0]] + spec_rank_add(entries.drop_first(), key, amount)
    }
}

/// The score of `key` in a rank map, if it has an entry.
pub open spec fn spec_rank_lookup<KV>(entries: Seq<(KV, u64)>, key: KV) -> Option<u64>
    decreases entries.len(),
{
    if entries.len() == 0 {
        None
    } else if entries[0].0 == key {
        Some(entries[0].1)
    } else {
        spec_rank_lookup(entries.drop_first(), key)
    }
}

/// No two entries of the rank map carry the same key.
pub open spec fn spec_rank_unique<KV>(entries: Seq<(KV, u64)>) -> bool {
    forall|i: int, j: int|
        0 <= i < j < entries.len() ==> entries[i].0 != entries[j].0
}

/// A score update touches exactly one key: afterwards the key's score has
/// the amount added (or is the amount, for a fresh key), and every other
/// key's score is exactly what it was.
pub proof fn lemma_rank_add_lookup<KV>(entries: Seq<(KV, u64)>, key: KV, amount: u64, probe: KV)
    ensures
        probe == key ==> spec_rank_lookup(spec_rank_add(entries, key, amount), probe) == Some(
            (match spec_rank_lookup(entries, key) {
                Some(s) => spec_sat_add(s, amount),
                None => amount,
            }),
        ),
        probe != key ==> spec_rank_lookup(spec_rank_add(entries, key, amount), probe)
            == spec_rank_lookup(entries, probe),
    decreases entries.len(),
{
    if entries.len() == 0 {
        let one = spec_rank_add(entries, key, amount);
        assert(one == seq![(key, amount)]);
        assert(one[0].0 == key && one[0].1 == amount && one.len() == 1);
        if probe != key {
            assert(one.drop_first() =~= Seq::<(KV, u64)>::empty());
            assert(spec_rank_lookup(one.drop_first(), probe) is None);
            assert(spec_rank_lookup(one, probe) is None);
        }
    } else if entries[0].0 == key {
        let updated = spec_rank_add(entries, key, amount);
        assert(updated[0] == (key, spec_sat_add(entries[0].1, amount)));
        if probe != key {
            assert(updated.drop_first() =~= entries.drop_first());
            assert(spec_rank_lookup(updated, probe) == spec_rank_lookup(
                updated.drop_first(),
                probe,
            ));
            assert(spec_rank_lookup(entries, probe) == spec_rank_lookup(
                entries.drop_first(),
                probe,
            ));
        }
    } else {
        lemma_rank_add_lookup(entries.drop_first(), key, amount, probe);
        let stepped = spec_rank_add(entries, key, amount);
        assert(stepped[0] == entries[0]);
        assert(stepped.len() > 0);
        assert(stepped.drop_first() =~= spec_rank_add(entries.drop_first(), key, amount));
        if entries[0].0 == probe {
            assert(spec_rank_lookup(stepped, probe) == Some(entries[0].1));
            assert(spec_rank_lookup(entries, probe) == Some(entries[0].1));
        } else {
            assert(spec_rank_lookup(stepped, probe) == spec_rank_lookup(
                stepped.drop_first(),
                probe,
            ));
            assert(spec_rank_lookup(entries, probe) == spec_rank_lookup(
                entries.drop_first(),
                probe,
            ));
        }
    }
}

/// The keys of the rank map after a score update are the old keys plus, at
/// most, the updated key; uniqueness of keys is preserved.
pub proof fn lemma_rank_add_unique<KV>(entries: Seq<(KV, u64)>, key: KV, amount: u64)
    requires
        spec_rank_unique(entries),
    ensures
        spec_rank_unique(spec_rank_add(entries, key, amount)),
        forall|i: int|
            #![trigger spec_rank_add(entries, key, amount)[i]]
            0 <= i < spec_rank_add(entries, key, amount).len() ==> (spec_rank_add(
                entries,
                key,
                amount,
            )[i].0 == key || (exists|j: int|
                0 <= j < entries.len() && entries[j].0 == spec_rank_add(
                    entries,
                    key,
                    amount,
                )[i].0)),
    decreases entries.len(),
{
    if entries.len() == 0 {
    } else if entries[0].0 == key {
        let updated = spec_rank_add(entries, key, amount);
        assert(updated.drop_first() =~= entries.drop_first());
        assert forall|i: int, j: int| 0 <= i < j < updated.len() implies updated[i].0
            != updated[j].0 by {
            assert(entries[i].0 != entries[j].0);
        }
        assert forall|i: int|
            0 <= i < updated.len() implies (updated[i].0 == key || (exists|j: int|
            0 <= j < entries.len() && entries[j].0 == updated[i].0)) by {
            if i > 0 {
                assert(entries[i].0 == updated[i].0);
            }
        }
    } else {
        assert(spec_rank_unique(entries.drop_first())) by {
            assert forall|i: int, j: int|
                0 <= i < j < entries.drop_first().len() implies entries.drop_first()[i].0
                != entries.drop_first()[j].0 by {
                assert(entries[i + 1].0 != entries[j + 1].0);
            }
        }
        lemma_rank_add_unique(entries.drop_first(), key, amount);
        let stepped = spec_rank_add(entries, key, amount);
        let tail = spec_rank_add(entries.drop_first(), key, amount);
        assert(stepped[0] == entries[0]);
        assert(stepped.drop_first() =~= tail);
        assert forall|i: int, j: int| 0 <= i < j < stepped.len() implies stepped[i].0
            != stepped[j].0 by {
            if i == 0 {
                assert(tail[j - 1] == stepped[j]);
                if stepped[j].0 == entries[0].0 {
                    assert(tail[j - 1].0 == key || (exists|k: int|
                        0 <= k < entries.drop_first().len() && entries.drop_first()[k].0
                            == tail[j - 1].0));
                    if tail[j - 1].0 != key {
                        let k = choose|k: int|
                            0 <= k < entries.drop_first().len() && entries.drop_first()[k].0
                                == tail[j - 1].0;
                        assert(entries[k + 1].0 == entries[0].0);
                    }
                }
            } else {
                assert(stepped[i] == tail[i - 1] && stepped[j] == tail[j - 1]);
            }
        }
        assert forall|i: int|
            0 <= i < stepped.len() implies (stepped[i].0 == key || (exists|j: int|
            0 <= j < entries.len() && entries[j].0 == stepped[i].0)) by {
            if i > 0 {
                assert(stepped[i] == tail[i - 1]);
                if tail[i - 1].0 != key {
                    let k = choose|k: int|
                        0 <= k < entries.drop_first().len() && entries.drop_first()[k].0
                            == tail[i - 1].0;
                    assert(entries[k + 1].0 == stepped[i].0);
                }
            }
        }
    }
}

/// When the first matching entry stands at `idx`, the score update is an
/// in-place update of that entry.
proof fn lemma_rank_add_at_index<KV>(entries: Seq<(KV, u64)>, key: KV, amount: u64, idx: int)
    requires
        0 <= idx < entries.len(),
        entries[idx].0 == key,
        forall|j: int| 0 <= j < idx ==> entries[j].0 != key,
    ensures
        spec_rank_add(entries, key, amount) == entries.update(
            idx,
            (key, spec_sat_add(entries[idx].1, amount)),
        ),
    decreases idx,
{
    if idx == 0 {
        assert(spec_rank_add(entries, key, amount) =~= entries.update(
            0,
            (key, spec_sat_add(entries[0].1, amount)),
        ));
    } else {
        assert(entries.drop_first()[idx - 1].0 == key);
        assert forall|j: int| 0 <= j < idx - 1 implies entries.drop_first()[j].0 != key by {
            assert(entries[j + 1].0 != key);
        }
        lemma_rank_add_at_index(entries.drop_first(), key, amount, idx - 1);
        assert(spec_rank_add(entries, key, amount) =~= entries.update(
            idx,
            (key, spec_sat_add(entries[idx].1, amount)),
        ));
    }
}

/// When no entry matches, the score update appends a fresh entry.
proof fn lemma_rank_add_absent<KV>(entries: Seq<(KV, u64)>, key: KV, amount: u64)
    requires
        forall|j: int| 0 <= j < entries.len() ==> entries[j].0 != key,
    ensures
        spec_rank_add(entries, key, amount) == entries.push((key, amount)),
    decreases entries.len(),
{
    if entries.len() == 0 {
        assert(spec_rank_add(entries, key, amount) =~= entries.push((key, amount)));
    } else {
        assert forall|j: int|
            0 <= j < entries.drop_first().len() implies entries.drop_first()[j].0 != key by {
            assert(entries[j + 1].0 != key);
        }
        lemma_rank_add_absent(entries.drop_first(), key, amount);
        assert(spec_rank_add(entries, key, amount) =~= entries.push((key, amount)));
    }
}

/// Saturating addition on scores.
fn sat_add(a: u64, b: u64) -> (r: u64)
    ensures
        r == spec_sat_add(a, b),
{
    if b <= u64::MAX - a {
        a + b
    } else {
        u64::MAX
    }
}

/// The entries of a path-keyed rank map, keys as character sequences.
pub open spec fn spec_string_entries(s: Seq<(String, u64)>) -> Seq<(Seq<char>, u64)> {
    s.map_values(|p: (String, u64)| (p.0@, p.1))
}

/// The entries of an address-keyed rank map, keys as octet sequences.
pub open spec fn spec_addr_entries(s: Seq<([u8; 4], u64)>) -> Seq<(Seq<u8>, u64)> {
    s.map_values(|p: ([u8; 4], u64)| (p.0@, p.1))
}

/// Adds to the score of a path key, appending a fresh entry when the key
/// has none.
pub fn rank_add_string(rank: &mut Vec<(String, u64)>, key: String, amount: u64)
    ensures
        spec_string_entries(final(rank)@) == spec_rank_add(
            spec_string_entries(old(rank)@),
            key@,
            amount,
        ),
{
    let ghost entries = spec_string_entries(rank@);
    let n: usize = rank.len();
    let mut i: usize = 0;
    while i < n
        invariant
            i <= n,
            n == rank@.len(),
            rank@ == old(rank)@,
            entries == spec_string_entries(rank@),
            forall|j: int| 0 <= j < i ==> entries[j].0 != key@,
        decreases n - i,
    {
        if rank[i].0 == key {
            let pair = rank.remove(i);
            let score: u64 = sat_add(pair.1, amount);
            rank.insert(i, (key, score));
            proof {
                lemma_rank_add_at_index(entries, key@, amount, i as int);
                assert(spec_string_entries(rank@) =~= entries.update(
                    i as int,
                    (key@, spec_sat_add(entries[i as int].1, amount)),
                ));
            }
            return;
        }
        i = i + 1;
    }
    rank.push((key, amount));
    proof {
        lemma_rank_add_absent(entries, key@, amount);
        assert(spec_string_entries(rank@) =~= entries.push((key@, amount)));
    }
}

/// Adds to the score of an integer key, appending a fresh entry when the
/// key has none.
pub fn rank_add_u64(rank: &mut Vec<(u64, u64)>, key: u64, amount: u64)
    ensures
        final(rank)@ == spec_rank_add(old(rank)@, key, amount),
{
    let ghost entries = rank@;
    let n: usize = rank.len();
    let mut i: usize = 0;
    while i < n
        invariant
            i <= n,
            n == rank@.len(),
            rank@ == old(rank)@,
            entries == rank@,
            forall|j: int| 0 <= j < i ==> entries[j].0 != key,
        decreases n - i,
    {
        if rank[i].0 == key {
            let pair = rank.remove(i);
            let score: u64 = sat_add(pair.1, amount);
            rank.insert(i, (key, score));
            proof {
                lemma_rank_add_at_index(entries, key, amount, i as int);
                assert(rank@ =~= entries.update(
                    i as int,
                    (key, spec_sat_add(entries[i as int].1, amount)),
                ));
            }
            return;
        }
        i = i + 1;
    }
    rank.push((key, amount));
    proof {
        lemma_rank_add_absent(entries, key, amount);
        assert(rank@ =~= entries.push((key, amount)));
    }
}

/// Adds to the score of a process-id key, appending a fresh entry when the
/// key has none.
pub fn rank_add_u32(rank: &mut Vec<(u32, u64)>, key: u32, amount: u64)
    ensures
        final(rank)@ == spec_rank_add(old(rank)@, key, amount),
{
    let ghost entries = rank@;
    let n: usize = rank.len();
    let mut i: usize = 0;
    while i < n
        invariant
            i <= n,
            n == rank@.len(),
            rank@ == old(rank)@,
            entries == rank@,
            forall|j: int| 0 <= j < i ==> entries[j].0 != key,
        decreases n - i,
    {
        if rank[i].0 == key {
            let pair = rank.remove(i);
            let score: u64 = sat_add(pair.1, amount);
            rank.insert(i, (key, score));
            proof {
                lemma_rank_add_at_index(entries, key, amount, i as int);
                assert(rank@ =~= entries.update(
                    i as int,
                    (key, spec_sat_add(entries[i as int].1, amount)),
                ));
            }
            return;
        }
        i = i + 1;
    }
    rank.push((key, amount));
    proof {
        lemma_rank_add_absent(entries, key, amount);
        assert(rank@ =~= entries.push((key, amount)));
    }
}

/// Whether two addresses have the same four octets.
fn addr_eq(a: &[u8; 4], b: &[u8; 4]) -> (r: bool)
    ensures
        r == (a@ == b@),
{
    let r = a[0] == b[0] && a[1] == b[1] && a[2] == b[2] && a[3] == b[3];
    proof {
        if r {
            assert(a@ =~= b@);
        }
    }
    r
}

/// Adds to the score of an address key, appending a fresh entry when the
/// key has none.
pub fn rank_add_addr(rank: &mut Vec<([u8; 4], u64)>, key: [u8; 4], amount: u64)
    ensures
        spec_addr_entries(final(rank)@) == spec_rank_add(
            spec_addr_entries(old(rank)@),
            key@,
            amount,
        ),
{
    let ghost entries = spec_addr_entries(rank@);
    let n: usize = rank.len();
    let mut i: usize = 0;
    while i < n
        invariant
            i <= n,
            n == rank@.len(),
            rank@ == old(rank)@,
            entries == spec_addr_entries(rank@),
            forall|j: int| 0 <= j < i ==> entries[j].0 != key@,
        decreases n - i,
    {
        if addr_eq(&rank[i].0, &key) {
            let pair = rank.remove(i);
            let score: u64 = sat_add(pair.1, amount);
            rank.insert(i, (key, score));
            proof {
                lemma_rank_add_at_index(entries, key@, amount, i as int);
                assert(spec_addr_entries(rank@) =~= entries.update(
                    i as int,
                    (key@, spec_sat_add(entries[i as int].1, amount)),
                ));
            }
            return;
        }
        i = i + 1;
    }
    rank.push((key, amount));
    proof {
        lemma_rank_add_absent(entries, key@, amount);
        assert(spec_addr_entries(rank@) =~= entries.push((key@, amount)));
    }
}

/// The log lines of a category, as character sequences.
pub open spec fn spec_log_lines(logs: Seq<String>) -> Seq<Seq<char>> {
    logs.map_values(|s: String| s@)
}

/// All aggregated observable state: per category a rank map and a log
/// list, plus the process start timestamp. A single owner mutates it;
/// readers work on snapshots.
pub struct TuiState {
    /// Path -> count
    pub execve_rank: Vec<(String, u64)>,
    pub execve_logs: Vec<String>,
    /// Exit code -> count
    pub exit_rank: Vec<(u64, u64)>,
    pub exit_logs: Vec<String>,
    /// Pid -> accumulated duration in microseconds
    pub read_rank: Vec<(u32, u64)>,
    pub read_logs: Vec<String>,
    /// Path -> count
    pub openat_rank: Vec<(String, u64)>,
    pub openat_logs: Vec<String>,
    /// Source address -> count
    pub net_rank: Vec<([u8; 4], u64)>,
    pub net_logs: Vec<String>,
    pub start_time: u64,
}

impl TuiState {
    /// Every rank map keeps at most one entry per key.
    pub open spec fn wf(&self) -> bool {
        &&& spec_rank_unique(spec_string_entries(self.execve_rank@))
        &&& spec_rank_unique(self.exit_rank@)
        &&& spec_rank_unique(self.read_rank@)
        &&& spec_rank_unique(spec_string_entries(self.openat_rank@))
        &&& spec_rank_unique(spec_addr_entries(self.net_rank@))
    }

    /// Fresh aggregated state: everything empty, started at the given
    /// timestamp.
    pub fn new(start_time: u64) -> (r: TuiState)
        ensures
            r.wf(),
            r.execve_rank@.len() == 0,
            r.execve_logs@.len() == 0,
            r.exit_rank@.len() == 0,
            r.exit_logs@.len() == 0,
            r.read_rank@.len() == 0,
            r.read_logs@.len() == 0,
            r.openat_rank@.len() == 0,
            r.openat_logs@.len() == 0,
            r.net_rank@.len() == 0,
            r.net_logs@.len() == 0,
            r.start_time == start_time,
    {
        TuiState {
            execve_rank: Vec::new(),
            execve_logs: Vec::new(),
            exit_rank: Vec::new(),
            exit_logs: Vec::new(),
            read_rank: Vec::new(),
            read_logs: Vec::new(),
            openat_rank: Vec::new(),
            openat_logs: Vec::new(),
            net_rank: Vec::new(),
            net_logs: Vec::new(),
            start_time,
        }
    }

    /// Elapsed time since the process start, in the timestamps' own unit;
    /// zero for a clock reading from before the start.
    pub fn uptime(&self, now: u64) -> (r: u64)
        ensures
            r == (if now >= self.start_time {
                (now - self.start_time) as u64
            } else {
                0u64
            }),
    {
        if now >= self.start_time {
            now - self.start_time
        } else {
            0
        }
    }
}

impl Default for TuiState {
    /// Fresh aggregated state with a zero start timestamp.
    fn default() -> (r: TuiState)
        ensures
            r.wf(),
            r.execve_rank@.len() == 0 && r.execve_logs@.len() == 0,
            r.exit_rank@.len() == 0 && r.exit_logs@.len() == 0,
            r.read_rank@.len() == 0 && r.read_logs@.len() == 0,
            r.openat_rank@.len() == 0 && r.openat_logs@.len() == 0,
            r.net_rank@.len() == 0 && r.net_logs@.len() == 0,
            r.start_time == 0,
    {
        TuiState::new(0)
    }
}

/// Applies one decoded event to the aggregated state: the event's category
/// decides which rank map gets its score update (a count, or the measured
/// duration for reads) and which log list the rendered event is appended
/// to; every other category is untouched. Updates are applied in arrival
/// order by the single owner.
pub fn update_state(state: &mut TuiState, event: StalkEvent)
    ensures
        final(state).start_time == old(state).start_time,
        old(state).wf() ==> final(state).wf(),
        (match event {
            StalkEvent::Execve(ev) => {
                &&& spec_string_entries(final(state).execve_rank@) == spec_rank_add(
                    spec_string_entries(old(state).execve_rank@),
                    ev.filename@,
                    1,
                )
                &&& spec_log_lines(final(state).execve_logs@) == spec_log_lines(
                    old(state).execve_logs@,
                ).push(spec_render_execve(ev))
                &&& final(state).exit_rank == old(state).exit_rank
                &&& final(state).exit_logs == old(state).exit_logs
                &&& final(state).read_rank == old(state).read_rank
                &&& final(state).read_logs == old(state).read_logs
                &&& final(state).openat_rank == old(state).openat_rank
                &&& final(state).openat_logs == old(state).openat_logs
                &&& final(state).net_rank == old(state).net_rank
                &&& final(state).net_logs == old(state).net_logs
            },
            StalkEvent::Exit(ev) => {
                &&& final(state).exit_rank@ == spec_rank_add(
                    old(state).exit_rank@,
                    ev.exit_code,
                    1,
                )
                &&& spec_log_lines(final(state).exit_logs@) == spec_log_lines(
                    old(state).exit_logs@,
                ).push(spec_render_exit(ev))
                &&& final(state).execve_rank == old(state).execve_rank
                &&& final(state).execve_logs == old(state).execve_logs
                &&& final(state).read_rank == old(state).read_rank
                &&& final(state).read_logs == old(state).read_logs
                &&& final(state).openat_rank == old(state).openat_rank
                &&& final(state).openat_logs == old(state).openat_logs
                &&& final(state).net_rank == old(state).net_rank
                &&& final(state).net_logs == old(state).net_logs
            },
            StalkEvent::Read(ev) => {
                &&& final(state).read_rank@ == spec_rank_add(
                    old(state).read_rank@,
                    ev.pid,
                    spec_duration(ev),
                )
                &&& spec_log_lines(final(state).read_logs@) == spec_log_lines(
                    old(state).read_logs@,
                ).push(spec_render_read(ev))
                &&& final(state).execve_rank == old(state).execve_rank
                &&& final(state).execve_logs == old(state).execve_logs
                &&& final(state).exit_rank == old(state).exit_rank
                &&& final(state).exit_logs == old(state).exit_logs
                &&& final(state).openat_rank == old(state).openat_rank
                &&& final(state).openat_logs == old(state).openat_logs
                &&& final(state).net_rank == old(state).net_rank
                &&& final(state).net_logs == old(state).net_logs
            },
            StalkEvent::Openat(ev) => {
                &&& spec_string_entries(final(state).openat_rank@) == spec_rank_add(
                    spec_string_entries(old(state).openat_rank@),
                    ev.filename@,
                    1,
                )
                &&& spec_log_lines(final(state).openat_logs@) == spec_log_lines(
                    old(state).openat_logs@,
                ).push(spec_render_openat(ev))
                &&& final(state).execve_rank == old(state).execve_rank
                &&& final(state).execve_logs == old(state).execve_logs
                &&& final(state).exit_rank == old(state).exit_rank
                &&& final(state).exit_logs == old(state).exit_logs
                &&& final(state).read_rank == old(state).read_rank
                &&& final(state).read_logs == old(state).read_logs
                &&& final(state).net_rank == old(state).net_rank
                &&& final(state).net_logs == old(state).net_logs
            },
            StalkEvent::Xdp(ev) => {
                &&& spec_addr_entries(final(state).net_rank@) == spec_rank_add(
                    spec_addr_entries(old(state).net_rank@),
                    ev.source_addr@,
                    1,
                )
                &&& spec_log_lines(final(state).net_logs@) == spec_log_lines(
                    old(state).net_logs@,
                ).push(spec_render_xdp(ev))
                &&& final(state).execve_rank == old(state).execve_rank
                &&& final(state).execve_logs == old(state).execve_logs
                &&& final(state).exit_rank == old(state).exit_rank
                &&& final(state).exit_logs == old(state).exit_logs
                &&& final(state).read_rank == old(state).read_rank
                &&& final(state).read_logs == old(state).read_logs
                &&& final(state).openat_rank == old(state).openat_rank
                &&& final(state).openat_logs == old(state).openat_logs
            },
        }),
{
    match event {
        StalkEvent::Execve(ev) => {
            let line: String = ev.render();
            let ghost key = ev.filename@;
            rank_add_string(&mut state.execve_rank, ev.filename, 1);
            state.execve_logs.push(line);
            proof {
                assert(spec_log_lines(state.execve_logs@) =~= spec_log_lines(
                    old(state).execve_logs@,
                ).push(spec_render_execve(ev)));
                if old(state).wf() {
                    lemma_rank_add_unique(spec_string_entries(old(state).execve_rank@), key, 1);
                }
            }
        },
        StalkEvent::Exit(ev) => {
            let line: String = ev.render();
            rank_add_u64(&mut state.exit_rank, ev.exit_code, 1);
            state.exit_logs.push(line);
            proof {
                assert(spec_log_lines(state.exit_logs@) =~= spec_log_lines(
                    old(state).exit_logs@,
                ).push(spec_render_exit(ev)));
                if old(state).wf() {
                    lemma_rank_add_unique(old(state).exit_rank@, ev.exit_code, 1);
                }
            }
        },
        StalkEvent::Read(ev) => {
            let line: String = ev.render();
            let amount: u64 = crate::correlator::duration_micros(&ev);
            rank_add_u32(&mut state.read_rank, ev.pid, amount);
            state.read_logs.push(line);
            proof {
                assert(spec_log_lines(state.read_logs@) =~= spec_log_lines(
                    old(state).read_logs@,
                ).push(spec_render_read(ev)));
                if old(state).wf() {
                    lemma_rank_add_unique(old(state).read_rank@, ev.pid, amount);
                }
            }
        },
        StalkEvent::Openat(ev) => {
            let line: String = ev.render();
            let ghost key = ev.filename@;
            rank_add_string(&mut state.openat_rank, ev.filename, 1);
            state.openat_logs.push(line);
            proof {
                assert(spec_log_lines(state.openat_logs@) =~= spec_log_lines(
                    old(state).openat_logs@,
                ).push(spec_render_openat(ev)));
                if old(state).wf() {
                    lemma_rank_add_unique(spec_string_entries(old(state).openat_rank@), key, 1);
                }
            }
        },
        StalkEvent::Xdp(ev) => {
            let line: String = ev.render();
            rank_add_addr(&mut state.net_rank, ev.source_addr, 1);
            state.net_logs.push(line);
            proof {
                assert(spec_log_lines(state.net_logs@) =~= spec_log_lines(
                    old(state).net_logs@,
                ).push(spec_render_xdp(ev)));
                if old(state).wf() {
                    lemma_rank_add_unique(spec_addr_entries(old(state).net_rank@), ev.source_addr@, 1);
                }
            }
        },
    }
}

/// A score update keeps every rank map's keys unique.
pub proof fn lemma_update_preserves_wf(
    pre: TuiState,
    post: TuiState,
    event: StalkEvent,
)
    requires
        pre.wf(),
        (match event {
            StalkEvent::Execve(ev) => spec_string_entries(post.execve_rank@) == spec_rank_add(
                spec_string_entries(pre.execve_rank@),
                ev.filename@,
                1,
            ) && post.exit_rank == pre.exit_rank && post.read_rank == pre.read_rank
                && post.openat_rank == pre.openat_rank && post.net_rank == pre.net_rank,
            StalkEvent::Exit(ev) => post.exit_rank@ == spec_rank_add(
                pre.exit_rank@,
                ev.exit_code,
                1,
            ) && post.execve_rank == pre.execve_rank && post.read_rank == pre.read_rank
                && post.openat_rank == pre.openat_rank && post.net_rank == pre.net_rank,
            StalkEvent::Read(ev) => post.read_rank@ == spec_rank_add(
                pre.read_rank@,
                ev.pid,
                spec_duration(ev),
            ) && post.execve_rank == pre.execve_rank && post.exit_rank == pre.exit_rank
                && post.openat_rank == pre.openat_rank && post.net_rank == pre.net_rank,
            StalkEvent::Openat(ev) => spec_string_entries(post.openat_rank@) == spec_rank_add(
                spec_string_entries(pre.openat_rank@),
                ev.filename@,
                1,
            ) && post.execve_rank == pre.execve_rank && post.exit_rank == pre.exit_rank
                && post.read_rank == pre.read_rank && post.net_rank == pre.net_rank,
            StalkEvent::Xdp(ev) => spec_addr_entries(post.net_rank@) == spec_rank_add(
                spec_addr_entries(pre.net_rank@),
                ev.source_addr@,
                1,
            ) && post.execve_rank == pre.execve_rank && post.exit_rank == pre.exit_rank
                && post.read_rank == pre.read_rank && post.openat_rank == pre.openat_rank,
        }),
    ensures
        post.wf(),
{
    match event {
        StalkEvent::Execve(ev) => {
            lemma_rank_add_unique(spec_string_entries(pre.execve_rank@), ev.filename@, 1);
        },
        StalkEvent::Exit(ev) => {
            lemma_rank_add_unique(pre.exit_rank@, ev.exit_code, 1);
        },
        StalkEvent::Read(ev) => {
            lemma_rank_add_unique(pre.read_rank@, ev.pid, spec_duration(ev));
        },
        StalkEvent::Openat(ev) => {
            lemma_rank_add_unique(spec_string_entries(pre.openat_rank@), ev.filename@, 1);
        },
        StalkEvent::Xdp(ev) => {
            lemma_rank_add_unique(spec_addr_entries(pre.net_rank@), ev.source_addr@, 1);
        },
    }
}

/// Query parameter of the read endpoints: the optional entry limit.
pub struct QueryParam {
    pub num: Option<usize>,
}

/// The effective query limit: the caller's, or the default when none was
/// given.
pub open spec fn spec_query_limit(limit: Option<usize>, default_limit: usize) -> usize {
    match limit {
        Some(n) => n,
        None => default_limit,
    }
}

/// How many entries a query returns: the limit, capped by what is there.
pub open spec fn spec_take_len(limit: usize, len: nat) -> int {
    if limit <= len {
        limit as int
    } else {
        len as int
    }
}

/// Up to `limit` log lines in insertion order (the default limit is 100):
/// exactly the first entries of the category's log snapshot.
pub fn recent_logs(logs: Vec<String>, limit: Option<usize>) -> (r: Vec<String>)
    ensures
        r@ == logs@.subrange(0, spec_take_len(spec_query_limit(limit, 100), logs@.len())),
        r@.len() <= spec_query_limit(limit, 100),
{
    let lim: usize = match limit {
        Some(n) => n,
        None => 100,
    };
    let mut logs = logs;
    logs.truncate(lim);
    proof {
        if lim > logs@.len() {
            assert(logs@ =~= logs@.subrange(0, logs@.len() as int));
        }
    }
    logs
}

/// The entries are ordered by non-increasing score.
pub open spec fn spec_sorted_desc<K>(s: Seq<(K, u64)>) -> bool {
    forall|i: int, j: int| 0 <= i < j < s.len() ==> s[i].1 >= s[j].1
}

/// Reorders rank entries by descending score. The result holds exactly the
/// input entries (as a multiset: nothing added, dropped or changed); which
/// of two equal-scored entries comes first is not specified.
pub fn sort_by_score_desc<K>(rank: Vec<(K, u64)>) -> (r: Vec<(K, u64)>)
    ensures
        r@.to_multiset() == rank@.to_multiset(),
        r@.len() == rank@.len(),
        spec_sorted_desc(r@),
{
    let ghost orig = rank@;
    let mut rest = rank;
    let mut out: Vec<(K, u64)> = Vec::new();
    proof {
        assert(out@.to_multiset().add(rest@.to_multiset()) =~= orig.to_multiset());
    }
    while rest.len() > 0
        invariant
            out@.to_multiset().add(rest@.to_multiset()) == orig.to_multiset(),
            out@.len() + rest@.len() == orig.len(),
            spec_sorted_desc(out@),
            forall|i: int, j: int|
                0 <= i < out@.len() && 0 <= j < rest@.len() ==> out@[i].1 >= rest@[j].1,
        decreases rest@.len(),
    {
        let mut best: usize = 0;
        let mut k: usize = 1;
        while k < rest.len()
            invariant
                best < rest@.len(),
                k <= rest@.len(),
                rest@.len() > 0,
                forall|t: int| 0 <= t < k ==> rest@[t].1 <= rest@[best as int].1,
            decreases rest@.len() - k,
        {
            if rest[k].1 > rest[best].1 {
                best = k;
            }
            k = k + 1;
        }
        let ghost rest0 = rest@;
        let ghost out0 = out@;
        let e = rest.remove(best);
        out.push(e);
        proof {
            assert(rest0.to_multiset().count(e) > 0) by {
                assert(rest0.contains(e)) by {
                    assert(rest0[best as int] == e);
                }
            }
            assert(out@.to_multiset().add(rest@.to_multiset()) =~= out0.to_multiset().add(
                rest0.to_multiset(),
            ));
            assert forall|i: int, j: int|
                0 <= i < out@.len() && 0 <= j < rest@.len() implies out@[i].1 >= rest@[j].1 by {
                assert(rest@[j] == (if j < best { rest0[j] } else { rest0[j + 1] }));
                if i < out0.len() {
                    assert(out@[i] == out0[i]);
                } else {
                    assert(out@[i] == e);
                }
            }
        }
    }
    proof {
        assert(rest@.to_multiset() =~= Multiset::<(K, u64)>::empty());
        assert(out@.to_multiset() =~= out@.to_multiset().add(rest@.to_multiset()));
    }
    out
}

/// Up to `limit` rank entries sorted by descending score (the default
/// limit is 10): the first entries of some descending-sorted reordering of
/// the snapshot's entries, so no returned entry scores below a withheld
/// one.
pub fn top_ranked<K>(rank: Vec<(K, u64)>, limit: Option<usize>) -> (r: Vec<(K, u64)>)
    ensures
        r@.len() == spec_take_len(spec_query_limit(limit, 10), rank@.len()),
        spec_sorted_desc(r@),
        exists|s: Seq<(K, u64)>|
            #![trigger s.to_multiset()]
            s.to_multiset() == rank@.to_multiset() && spec_sorted_desc(s) && r@ == s.subrange(
                0,
                r@.len() as int,
            ),
{
    let ghost input = rank@;
    let lim: usize = match limit {
        Some(n) => n,
        None => 10,
    };
    let mut sorted = sort_by_score_desc(rank);
    let ghost full = sorted@;
    sorted.truncate(lim);
    proof {
        if lim > full.len() {
            assert(sorted@ =~= full.subrange(0, full.len() as int));
        }
        assert(full.to_multiset() == input.to_multiset() && spec_sorted_desc(full) && sorted@
            == full.subrange(0, sorted@.len() as int));
    }
    sorted
}

/// When all scores are pairwise distinct, "sorted by descending score"
/// is strict: every entry scores strictly above the next.
pub proof fn lemma_distinct_scores_strictly_descending<K>(s: Seq<(K, u64)>)
    requires
        spec_sorted_desc(s),
        forall|i: int, j: int| 0 <= i < j < s.len() ==> s[i].1 != s[j].1,
    ensures
        forall|i: int, j: int| 0 <= i < j < s.len() ==> s[i].1 > s[j].1,
{
}

} // verus!
