//! The flow table: a mapping from five-tuple keys to per-flow aggregates,
//! fed by the capture pipeline and read by the report aggregator.

use vstd::prelude::*;

use crate::CoreError;
use crate::capture::Filters;
use crate::flow::{FlowKey, FlowStats, OwnerRecord, ProtocolSet, TrafficDirection,
    TransProtocol, stats_like};

verus! {

/// The comparator a snapshot is ordered by.
#[derive(Clone, Copy, PartialEq, Eq, Structural, Debug)]
pub enum ReportSortType {
    MostRecent,
    MostBytes,
    MostPackets,
}

/// Whether some row of the table carries this key.
pub open spec fn has_key(s: Seq<(FlowKey, FlowStats)>, k: FlowKey) -> bool {
    exists|i: int| 0 <= i < s.len() && s[i].0 == k
}

/// The row index of a key; meaningful only under `has_key`.
pub open spec fn key_at(s: Seq<(FlowKey, FlowStats)>, k: FlowKey) -> int {
    choose|i: int| 0 <= i < s.len() && s[i].0 == k
}

/// The aggregate stored for a key; meaningful only under `has_key`.
pub open spec fn stats_of(s: Seq<(FlowKey, FlowStats)>, k: FlowKey) -> FlowStats {
    s[key_at(s, k)].1
}

/// Well-formedness of the table contents together with the ordinal
/// dispenser: keys are unique, every aggregate is well formed, and the
/// insertion ordinals grow along the table, all below `next_index`, so
/// no ordinal is ever dispensed twice.
pub open spec fn table_wf(s: Seq<(FlowKey, FlowStats)>, next_index: u64) -> bool {
    &&& forall|i: int, j: int|
        0 <= i < j < s.len() ==> (#[trigger] s[i]).0 != (#[trigger] s[j]).0
    &&& forall|i: int| 0 <= i < s.len() ==> (#[trigger] s[i]).1.wf()
    &&& forall|i: int| 0 <= i < s.len() ==> (#[trigger] s[i]).1.index < next_index
    &&& forall|i: int, j: int|
        0 <= i < j < s.len() ==> (#[trigger] s[i]).1.index < (#[trigger] s[j]).1.index
}

/// Whether one observation fits the counters of an existing aggregate
/// without overflow.
pub open spec fn observe_fits(
    st: FlowStats,
    delta_bytes: u64,
    delta_packets: u64,
    direction: TrafficDirection,
) -> bool {
    match direction {
        TrafficDirection::Outgoing => {
            &&& st.transmitted_bytes + delta_bytes <= u128::MAX
            &&& st.transmitted_packets + delta_packets <= u128::MAX
        },
        TrafficDirection::Incoming => {
            &&& st.received_bytes + delta_bytes <= u128::MAX
            &&& st.received_packets + delta_packets <= u128::MAX
        },
        TrafficDirection::Unknown => true,
    }
}

/// An existing aggregate merged with one further observation: directional
/// counters grow, the first timestamp takes the minimum, the latest takes
/// the maximum, the protocol joins the set, and a direction still unknown
/// adopts the observed one. Owner and ordinal never move.
pub open spec fn merged_stats(
    st: FlowStats,
    delta_bytes: u64,
    delta_packets: u64,
    protocol: TransProtocol,
    direction: TrafficDirection,
    now: u64,
) -> FlowStats {
    FlowStats {
        transmitted_bytes: if direction is Outgoing {
            (st.transmitted_bytes + delta_bytes) as u128
        } else {
            st.transmitted_bytes
        },
        transmitted_packets: if direction is Outgoing {
            (st.transmitted_packets + delta_packets) as u128
        } else {
            st.transmitted_packets
        },
        received_bytes: if direction is Incoming {
            (st.received_bytes + delta_bytes) as u128
        } else {
            st.received_bytes
        },
        received_packets: if direction is Incoming {
            (st.received_packets + delta_packets) as u128
        } else {
            st.received_packets
        },
        initial_timestamp: if now < st.initial_timestamp { now } else { st.initial_timestamp },
        final_timestamp: if now > st.final_timestamp { now } else { st.final_timestamp },
        protocols_seen: st.protocols_seen.spec_insert(protocol),
        direction: if st.direction is Unknown { direction } else { st.direction },
        owner: st.owner,
        index: st.index,
    }
}

/// The aggregate allocated for a key seen for the first time.
pub open spec fn fresh_stats(
    delta_bytes: u64,
    delta_packets: u64,
    protocol: TransProtocol,
    direction: TrafficDirection,
    now: u64,
    index: u64,
) -> FlowStats {
    FlowStats {
        transmitted_bytes: if direction is Outgoing { delta_bytes as u128 } else { 0 },
        transmitted_packets: if direction is Outgoing { delta_packets as u128 } else { 0 },
        received_bytes: if direction is Incoming { delta_bytes as u128 } else { 0 },
        received_packets: if direction is Incoming { delta_packets as u128 } else { 0 },
        initial_timestamp: now,
        final_timestamp: now,
        protocols_seen: ProtocolSet::spec_singleton(protocol),
        direction,
        owner: None,
        index,
    }
}

/// One observation as a transition on the table contents and the ordinal
/// dispenser. The third component tells whether the observation was
/// recorded; a refused observation leaves everything unchanged.
pub open spec fn step_table(
    s: Seq<(FlowKey, FlowStats)>,
    next_index: u64,
    k: FlowKey,
    delta_bytes: u64,
    delta_packets: u64,
    protocol: TransProtocol,
    direction: TrafficDirection,
    now: u64,
) -> (Seq<(FlowKey, FlowStats)>, u64, bool) {
    if has_key(s, k) {
        if observe_fits(stats_of(s, k), delta_bytes, delta_packets, direction) {
            (
                s.update(
                    key_at(s, k),
                    (k, merged_stats(stats_of(s, k), delta_bytes, delta_packets, protocol,
                        direction, now)),
                ),
                next_index,
                true,
            )
        } else {
            (s, next_index, false)
        }
    } else {
        if next_index < u64::MAX {
            (
                s.push((k, fresh_stats(delta_bytes, delta_packets, protocol, direction, now,
                    next_index))),
                (next_index + 1) as u64,
                true,
            )
        } else {
            (s, next_index, false)
        }
    }
}

/// Whether one observation fits the counters of this aggregate.
pub fn stats_fit(st: &FlowStats, delta_bytes: u64, delta_packets: u64,
    direction: TrafficDirection) -> (r: bool)
    ensures
        r == observe_fits(*st, delta_bytes, delta_packets, direction),
{
    match direction {
        TrafficDirection::Outgoing => {
            delta_bytes as u128 <= u128::MAX - st.transmitted_bytes
                && delta_packets as u128 <= u128::MAX - st.transmitted_packets
        },
        TrafficDirection::Incoming => {
            delta_bytes as u128 <= u128::MAX - st.received_bytes
                && delta_packets as u128 <= u128::MAX - st.received_packets
        },
        TrafficDirection::Unknown => true,
    }
}

/// Merge one observation into an existing aggregate, per `merged_stats`.
pub fn apply_observation(
    st: &mut FlowStats,
    delta_bytes: u64,
    delta_packets: u64,
    protocol: TransProtocol,
    direction: TrafficDirection,
    now: u64,
)
    requires
        old(st).wf(),
        observe_fits(*old(st), delta_bytes, delta_packets, direction),
        delta_bytes > 0 ==> delta_packets > 0,
    ensures
        *final(st) == merged_stats(*old(st), delta_bytes, delta_packets, protocol, direction,
            now),
        final(st).wf(),
{
    match direction {
        TrafficDirection::Outgoing => {
            st.transmitted_bytes = st.transmitted_bytes + delta_bytes as u128;
            st.transmitted_packets = st.transmitted_packets + delta_packets as u128;
        },
        TrafficDirection::Incoming => {
            st.received_bytes = st.received_bytes + delta_bytes as u128;
            st.received_packets = st.received_packets + delta_packets as u128;
        },
        TrafficDirection::Unknown => {},
    }
    if now < st.initial_timestamp {
        st.initial_timestamp = now;
    }
    if now > st.final_timestamp {
        st.final_timestamp = now;
    }
    st.protocols_seen.insert(protocol);
    if st.direction == TrafficDirection::Unknown {
        st.direction = direction;
    }
}

/// Replacing one row's aggregate by a well-formed one with the same
/// ordinal keeps the table well formed.
pub proof fn lemma_table_wf_update(s: Seq<(FlowKey, FlowStats)>, next_index: u64, i: int,
    st: FlowStats)
    requires
        table_wf(s, next_index),
        0 <= i < s.len(),
        st.wf(),
        st.index == s[i].1.index,
    ensures
        table_wf(s.update(i, (s[i].0, st)), next_index),
{
    let t = s.update(i, (s[i].0, st));
    assert forall|a: int, b: int| 0 <= a < b < t.len() implies (#[trigger] t[a]).0
        != (#[trigger] t[b]).0 by {
        assert(s[a].0 != s[b].0);
    }
    assert forall|a: int| 0 <= a < t.len() implies (#[trigger] t[a]).1.wf() by {
        assert(s[a].1.wf());
    }
    assert forall|a: int| 0 <= a < t.len() implies (#[trigger] t[a]).1.index < next_index by {
        assert(s[a].1.index < next_index);
    }
    assert forall|a: int, b: int| 0 <= a < b < t.len() implies (#[trigger] t[a]).1.index
        < (#[trigger] t[b]).1.index by {
        assert(s[a].1.index < s[b].1.index);
    }
}

/// Appending a fresh key whose aggregate takes the next ordinal keeps
/// the table well formed.
pub proof fn lemma_table_wf_push(s: Seq<(FlowKey, FlowStats)>, next_index: u64, k: FlowKey,
    st: FlowStats)
    requires
        table_wf(s, next_index),
        !has_key(s, k),
        st.wf(),
        st.index == next_index,
        next_index < u64::MAX,
    ensures
        table_wf(s.push((k, st)), (next_index + 1) as u64),
{
    let t = s.push((k, st));
    assert forall|a: int, b: int| 0 <= a < b < t.len() implies (#[trigger] t[a]).0
        != (#[trigger] t[b]).0 by {
        if b < s.len() {
            assert(s[a].0 != s[b].0);
        } else {
            assert(t[b].0 == k);
            assert(t[a] == s[a]);
        }
    }
    assert forall|a: int| 0 <= a < t.len() implies (#[trigger] t[a]).1.wf() by {
        if a < s.len() {
            assert(s[a].1.wf());
        }
    }
    assert forall|a: int| 0 <= a < t.len() implies (#[trigger] t[a]).1.index
        < (next_index + 1) as u64 by {
        if a < s.len() {
            assert(s[a].1.index < next_index);
        }
    }
    assert forall|a: int, b: int| 0 <= a < b < t.len() implies (#[trigger] t[a]).1.index
        < (#[trigger] t[b]).1.index by {
        if b < s.len() {
            assert(s[a].1.index < s[b].1.index);
        } else {
            assert(s[a].1.index < next_index);
        }
    }
}

/// The flow table. Entries are created on first observation and live
/// until an explicit clear; the ordinal dispenser survives clears.
pub struct FlowTable {
    pub entries: Vec<(FlowKey, FlowStats)>,
    pub next_index: u64,
}

impl FlowTable {
    pub open spec fn wf(self) -> bool {
        table_wf(self.entries@, self.next_index)
    }

    pub fn new() -> (r: FlowTable)
        ensures
            r.wf(),
            r.entries@.len() == 0,
            r.next_index == 0,
    {
        FlowTable { entries: Vec::new(), next_index: 0 }
    }

    pub fn len(&self) -> (r: usize)
        ensures
            r == self.entries@.len(),
    {
        self.entries.len()
    }

    /// Empty the table; the ordinal dispenser is not reset, so ordinals
    /// are never reused across a clear.
    pub fn clear(&mut self)
        ensures
            final(self).entries@.len() == 0,
            final(self).next_index == old(self).next_index,
            final(self).wf(),
    {
        self.entries.clear();
    }

    /// The row index of `k`, if the key is present.
    pub fn find(&self, k: &FlowKey) -> (r: Option<usize>)
        requires
            self.wf(),
        ensures
            match r {
                Some(i) => i < self.entries@.len() && self.entries@[i as int].0 == *k
                    && i == key_at(self.entries@, *k) && has_key(self.entries@, *k),
                None => !has_key(self.entries@, *k),
            },
    {
        let mut i: usize = 0;
        while i < self.entries.len()
            invariant
                self.wf(),
                i <= self.entries@.len(),
                forall|j: int| 0 <= j < i ==> self.entries@[j].0 != *k,
            decreases self.entries@.len() - i,
        {
            if self.entries[i].0 == *k {
                proof {
                    assert(has_key(self.entries@, *k));
                    let w = key_at(self.entries@, *k);
                    assert(self.entries@[w].0 == *k);
                    if w < i {
                        assert(self.entries@[w].0 != *k);
                    }
                    if i < w {
                        assert(self.entries@[i as int].0 != self.entries@[w].0);
                    }
                }
                return Some(i);
            }
            i += 1;
        }
        None
    }

    /// Record one observation: upsert the key's aggregate per
    /// `step_table`. Returns `Ok` exactly when the observation fits the
    /// counters (existing key) or an ordinal is still available (new
    /// key); a refused observation leaves the table unchanged.
    pub fn observe(
        &mut self,
        k: FlowKey,
        delta_bytes: u64,
        delta_packets: u64,
        protocol: TransProtocol,
        direction: TrafficDirection,
        now: u64,
    ) -> (r: Result<(), CoreError>)
        requires
            old(self).wf(),
            delta_bytes > 0 ==> delta_packets > 0,
        ensures
            final(self).wf(),
            ({
                let step = step_table(old(self).entries@, old(self).next_index, k, delta_bytes,
                    delta_packets, protocol, direction, now);
                &&& final(self).entries@ == step.0
                &&& final(self).next_index == step.1
                &&& r is Ok <==> step.2
                &&& r is Err ==> r == Result::<(), CoreError>::Err(CoreError::Internal)
            }),
    {
        let ghost step = step_table(self.entries@, self.next_index, k, delta_bytes,
            delta_packets, protocol, direction, now);
        match self.find(&k) {
            Some(i) => {
                let fits = stats_fit(&self.entries[i].1, delta_bytes, delta_packets, direction);
                if !fits {
                    return Err(CoreError::Internal);
                }
                let (kk, mut st) = self.entries.remove(i);
                apply_observation(&mut st, delta_bytes, delta_packets, protocol, direction, now);
                proof {
                    lemma_table_wf_update(old(self).entries@, old(self).next_index, i as int,
                        st);
                }
                self.entries.insert(i, (kk, st));
                proof {
                    assert(self.entries@ =~= old(self).entries@.update(i as int, (kk, st)));
                    assert(self.entries@ =~= step.0);
                }
                Ok(())
            },
            None => {
                if self.next_index == u64::MAX {
                    return Err(CoreError::Internal);
                }
                let idx = self.next_index;
                let st = FlowStats {
                    transmitted_bytes: if direction == TrafficDirection::Outgoing {
                        delta_bytes as u128
                    } else {
                        0
                    },
                    transmitted_packets: if direction == TrafficDirection::Outgoing {
                        delta_packets as u128
                    } else {
                        0
                    },
                    received_bytes: if direction == TrafficDirection::Incoming {
                        delta_bytes as u128
                    } else {
                        0
                    },
                    received_packets: if direction == TrafficDirection::Incoming {
                        delta_packets as u128
                    } else {
                        0
                    },
                    initial_timestamp: now,
                    final_timestamp: now,
                    protocols_seen: ProtocolSet::singleton(protocol),
                    direction,
                    owner: None,
                    index: idx,
                };
                proof {
                    assert(st == fresh_stats(delta_bytes, delta_packets, protocol, direction,
                        now, idx));
                    lemma_table_wf_push(self.entries@, self.next_index, k, st);
                }
                self.entries.push((k, st));
                self.next_index = idx + 1;
                proof {
                    assert(self.entries@ =~= step.0);
                }
                Ok(())
            },
        }
    }
}

impl FlowTable {
    /// Attach or extend the owner of the flow keyed by `k`. A flow with
    /// no owner yet receives `{uid, pids}`; one already owned keeps its
    /// user and merges the process ids. A key not in the table is left
    /// alone.
    pub fn attach_owner(&mut self, k: &FlowKey, uid: u32, pids: &Vec<u32>)
        requires
            old(self).wf(),
        ensures
            final(self).wf(),
            final(self).next_index == old(self).next_index,
            !has_key(old(self).entries@, *k) ==> final(self).entries@ == old(self).entries@,
            has_key(old(self).entries@, *k) ==> ({
                let i = key_at(old(self).entries@, *k);
                let st0 = old(self).entries@[i].1;
                let st1 = final(self).entries@[i].1;
                &&& final(self).entries@ == old(self).entries@.update(i, (*k, st1))
                &&& st1 == FlowStats { owner: st1.owner, ..st0 }
                &&& match (st0.owner, st1.owner) {
                    (Option::None, Option::Some(o1)) => o1.uid == uid && forall|p: u32|
                        o1.spec_has_pid(p) == pids@.contains(p),
                    (Option::Some(o0), Option::Some(o1)) => o1.uid == o0.uid && forall|p: u32|
                        o1.spec_has_pid(p) == (o0.spec_has_pid(p) || pids@.contains(p)),
                    _ => false,
                }
            }),
    {
        match self.find(k) {
            None => {},
            Some(i) => {
                let (kk, mut st) = self.entries.remove(i);
                let resolved = st.owner.is_some();
                if !resolved {
                    let mut o = OwnerRecord::new(uid, Vec::new());
                    o.merge_pids(pids);
                    st.owner = Some(o);
                } else {
                    match &mut st.owner {
                        Some(o) => {
                            o.merge_pids(pids);
                        },
                        None => {},
                    }
                }
                proof {
                    lemma_table_wf_update(old(self).entries@, old(self).next_index, i as int,
                        st);
                }
                self.entries.insert(i, (kk, st));
                proof {
                    assert(self.entries@ =~= old(self).entries@.update(i as int, (kk, st)));
                }
            },
        }
    }
}

/// Whether a snapshot row passes the port window: one of its endpoint
/// ports falls in it.
pub open spec fn row_admitted(e: (FlowKey, FlowStats), f: Filters) -> bool {
    f.spec_admits(e.0.src_port) || f.spec_admits(e.0.dst_port)
}

/// The table rows passing the port window, in table order.
pub open spec fn filtered_entries(s: Seq<(FlowKey, FlowStats)>, f: Filters)
    -> Seq<(FlowKey, FlowStats)>
    decreases s.len(),
{
    if s.len() == 0 {
        Seq::empty()
    } else {
        let rest = filtered_entries(s.drop_last(), f);
        if row_admitted(s.last(), f) {
            rest.push(s.last())
        } else {
            rest
        }
    }
}

/// A returned snapshot row: the key and contents of some table row
/// that passes the window.
pub open spec fn row_from_table(row: (FlowKey, FlowStats), s: Seq<(FlowKey, FlowStats)>,
    f: Filters) -> bool {
    exists|j: int| 0 <= j < s.len() && s[j].0 == row.0 && stats_like(row.1, s[j].1)
        && row_admitted(s[j], f)
}

/// Where the requested page of twenty begins in the sorted filtered
/// sequence of n rows.
pub open spec fn page_start(n: int, page: int) -> int {
    if 20 * (page - 1) < n {
        20 * (page - 1)
    } else {
        n
    }
}

/// Where the requested page ends: twenty rows past its start, or the
/// end of the sequence.
pub open spec fn page_end(n: int, page: int) -> int {
    if n - page_start(n, page) < 20 {
        n
    } else {
        page_start(n, page) + 20
    }
}

/// How many rows the requested page shows.
pub open spec fn page_len(n: int, page: int) -> int {
    page_end(n, page) - page_start(n, page)
}

/// Rows that hold like contents compare alike: the comparator reads
/// only counters, timestamps and the ordinal, which likeness keeps.
pub proof fn lemma_like_rows_le(a1: (FlowKey, FlowStats), a2: (FlowKey, FlowStats),
    b1: (FlowKey, FlowStats), b2: (FlowKey, FlowStats), sort: ReportSortType)
    requires
        stats_like(a1.1, a2.1),
        stats_like(b1.1, b2.1),
        crate::sort::spec_row_le(a2, b2, sort),
    ensures
        crate::sort::spec_row_le(a1, b1, sort),
{
}

impl FlowTable {
    /// A point-in-time, ordered view of the table: the rows passing
    /// the port window, ordered by the comparator with ties broken by
    /// insertion ordinal, cut to the requested page of twenty; beside
    /// them the count of all rows passing the window.
    pub fn snapshot(&self, f: &Filters, sort: ReportSortType, page: usize)
        -> (r: (Vec<(FlowKey, FlowStats)>, usize))
        requires
            self.wf(),
            page >= 1,
        ensures
            r.1 == filtered_entries(self.entries@, *f).len(),
            crate::sort::sorted_rows(r.0@, sort),
            r.0@.len() == page_len(filtered_entries(self.entries@, *f).len() as int,
                page as int),
            forall|i: int| 0 <= i < r.0@.len()
                ==> row_from_table(#[trigger] r.0@[i], self.entries@, *f),
            forall|a: int, b: int| 0 <= a < b < r.0@.len()
                ==> (#[trigger] r.0@[a]).1.index != (#[trigger] r.0@[b]).1.index,
            self.entries@.len() == 0 ==> r.0@.len() == 0 && r.1 == 0,
            exists|full: Seq<(FlowKey, FlowStats)>| ({
                let n = filtered_entries(self.entries@, *f).len() as int;
                &&& #[trigger] crate::sort::sorted_rows(full, sort)
                &&& full.len() == n
                &&& forall|i: int| 0 <= i < full.len()
                    ==> row_from_table(#[trigger] full[i], self.entries@, *f)
                &&& forall|a: int, b: int| 0 <= a < b < full.len()
                    ==> (#[trigger] full[a]).1.index != (#[trigger] full[b]).1.index
                &&& r.0@ == full.subrange(page_start(n, page as int), page_end(n,
                    page as int))
            }),
    {
        let mut rows: Vec<(FlowKey, FlowStats)> = Vec::new();
        let mut i: usize = 0;
        while i < self.entries.len()
            invariant
                self.wf(),
                i <= self.entries@.len(),
                rows@.len() == filtered_entries(self.entries@.subrange(0, i as int),
                    *f).len(),
                forall|a: int| 0 <= a < rows@.len()
                    ==> row_from_table(#[trigger] rows@[a], self.entries@, *f),
                forall|a: int, b: int| 0 <= a < b < rows@.len()
                    ==> (#[trigger] rows@[a]).1.index < (#[trigger] rows@[b]).1.index,
                rows@.len() == 0 || i == 0 || rows@.last().1.index
                    <= self.entries@[i - 1].1.index,
            decreases self.entries@.len() - i,
        {
            proof {
                assert(self.entries@.subrange(0, i + 1).drop_last()
                    =~= self.entries@.subrange(0, i as int));
                assert(self.entries@.subrange(0, i + 1).last() == self.entries@[i as int]);
            }
            let e = &self.entries[i];
            if f.admits(e.0.src_port) || f.admits(e.0.dst_port) {
                let ghost prevrows = rows@;
                rows.push((e.0, e.1.duplicate()));
                proof {
                    assert(rows@.last().0 == self.entries@[i as int].0);
                    assert(row_from_table(rows@.last(), self.entries@, *f));
                    assert(rows@.last().1.index == self.entries@[i as int].1.index);
                    if prevrows.len() > 0 {
                        assert(filtered_entries(self.entries@.subrange(0, 0), *f).len()
                            == 0);
                        assert(i > 0);
                        assert(prevrows.last().1.index <= self.entries@[i - 1].1.index);
                        assert(self.entries@[i - 1].1.index
                            < self.entries@[i as int].1.index);
                    }
                    assert forall|a: int, b: int| 0 <= a < b < rows@.len()
                        implies (#[trigger] rows@[a]).1.index
                            < (#[trigger] rows@[b]).1.index by {
                        if b < prevrows.len() {
                            assert(prevrows[a].1.index < prevrows[b].1.index);
                        } else {
                            if a < prevrows.len() - 1 {
                                assert(prevrows[a].1.index < prevrows.last().1.index);
                            }
                        }
                    }
                }
            }
            i += 1;
        }
        proof {
            assert(self.entries@.subrange(0, self.entries@.len() as int) =~= self.entries@);
        }
        let total = rows.len();
        let ghost unsorted = rows@;
        crate::sort::sort_rows(sort, &mut rows);
        proof {
            broadcast use vstd::seq_lib::group_to_multiset_ensures;

            assert forall|a: int| 0 <= a < rows@.len()
                implies row_from_table(#[trigger] rows@[a], self.entries@, *f) by {
                let x = rows@[a];
                assert(rows@.contains(x));
                assert(unsorted.to_multiset().count(x) > 0);
                assert(unsorted.contains(x));
                let w = choose|w: int| 0 <= w < unsorted.len() && unsorted[w] == x;
                assert(row_from_table(unsorted[w], self.entries@, *f));
            }
            assert(unsorted.no_duplicates()) by {
                assert forall|a: int, b: int|
                    0 <= a < unsorted.len() && 0 <= b < unsorted.len() && a != b
                    implies unsorted[a] != unsorted[b] by {
                    if a < b {
                        assert(unsorted[a].1.index < unsorted[b].1.index);
                    } else {
                        assert(unsorted[b].1.index < unsorted[a].1.index);
                    }
                }
            }
            unsorted.lemma_multiset_has_no_duplicates();
            rows@.lemma_multiset_has_no_duplicates_conv();
            assert forall|a: int, b: int| 0 <= a < b < rows@.len()
                implies (#[trigger] rows@[a]).1.index != (#[trigger] rows@[b]).1.index by {
                assert(rows@[a] != rows@[b]);
                assert(rows@.contains(rows@[a]));
                assert(rows@.contains(rows@[b]));
                assert(unsorted.to_multiset().count(rows@[a]) > 0);
                assert(unsorted.to_multiset().count(rows@[b]) > 0);
                assert(unsorted.contains(rows@[a]));
                assert(unsorted.contains(rows@[b]));
                let wa = choose|w: int| 0 <= w < unsorted.len() && unsorted[w] == rows@[a];
                let wb = choose|w: int| 0 <= w < unsorted.len() && unsorted[w] == rows@[b];
                if wa < wb {
                    assert(unsorted[wa].1.index < unsorted[wb].1.index);
                }
                if wb < wa {
                    assert(unsorted[wb].1.index < unsorted[wa].1.index);
                }
            }
        }
        let n = rows.len();
        let start: usize = if page - 1 > n / 20 {
            n
        } else {
            if 20 * (page - 1) > n {
                n
            } else {
                20 * (page - 1)
            }
        };
        let end: usize = if n - start < 20 {
            n
        } else {
            start + 20
        };
        proof {
            assert(start == page_start(n as int, page as int) && end == page_end(n as int,
                page as int)) by {
                if page - 1 > n / 20 {
                    assert(20 * ((page - 1) as int) >= 20 * (n as int / 20 + 1))
                        by (nonlinear_arith)
                        requires (page - 1) as int >= n as int / 20 + 1;
                    assert(20 * (n as int / 20) + 20 > n as int) by (nonlinear_arith);
                } else {
                    assert(20 * ((page - 1) as int) <= 20 * (n as int / 20))
                        by (nonlinear_arith)
                        requires (page - 1) as int <= n as int / 20;
                    assert(20 * (n as int / 20) <= n as int) by (nonlinear_arith);
                }
            }
        }
        let mut out: Vec<(FlowKey, FlowStats)> = Vec::new();
        let mut t: usize = start;
        while t < end
            invariant
                start <= t <= end,
                end <= rows@.len(),
                out@.len() == t - start,
                crate::sort::sorted_rows(rows@, sort),
                forall|a: int| 0 <= a < rows@.len()
                    ==> row_from_table(#[trigger] rows@[a], self.entries@, *f),
                forall|a: int, b: int| 0 <= a < b < rows@.len()
                    ==> (#[trigger] rows@[a]).1.index != (#[trigger] rows@[b]).1.index,
                forall|a: int| 0 <= a < out@.len()
                    ==> row_from_table(#[trigger] out@[a], self.entries@, *f),
                forall|a: int| 0 <= a < out@.len()
                    ==> stats_like(#[trigger] out@[a].1, rows@[start + a].1)
                        && out@[a].0 == rows@[start + a].0,
            decreases end - t,
        {
            let e = &rows[t];
            out.push((e.0, e.1.duplicate()));
            proof {
                let x = out@.last();
                assert(stats_like(x.1, rows@[t as int].1));
                let w = choose|w: int| 0 <= w < self.entries@.len()
                    && self.entries@[w].0 == rows@[t as int].0
                    && stats_like(rows@[t as int].1, self.entries@[w].1)
                    && row_admitted(self.entries@[w], *f);
                assert(row_from_table(x, self.entries@, *f));
            }
            t += 1;
        }
        proof {
            assert forall|a: int, b: int| #![trigger out@[a], out@[b]]
                0 <= a < b < out@.len()
                implies crate::sort::spec_row_le(out@[a], out@[b], sort) by {
                assert(crate::sort::spec_row_le(rows@[start + a], rows@[start + b], sort));
                lemma_like_rows_le(out@[a], rows@[start + a], out@[b], rows@[start + b],
                    sort);
            }
            assert forall|a: int, b: int| 0 <= a < b < out@.len()
                implies (#[trigger] out@[a]).1.index != (#[trigger] out@[b]).1.index by {
                assert(out@[a].1.index == rows@[start + a].1.index);
                assert(out@[b].1.index == rows@[start + b].1.index);
                assert(rows@[start + a].1.index != rows@[start + b].1.index);
            }
            if self.entries@.len() == 0 {
                assert(filtered_entries(self.entries@, *f) =~= Seq::<(FlowKey,
                    FlowStats)>::empty());
            }
            // The full sorted sequence the page is a slice of: the page's
            // rows inside their window, the sorted rows around it.
            let full = rows@.subrange(0, start as int) + out@ + rows@.subrange(end as int,
                rows@.len() as int);
            assert(full.len() == rows@.len());
            assert forall|t: int| 0 <= t < full.len()
                implies (#[trigger] full[t]).0 == rows@[t].0
                    && stats_like(full[t].1, rows@[t].1) by {
                if t < start {
                    assert(full[t] == rows@[t]);
                } else if t < end {
                    assert(full[t] == out@[t - start]);
                } else {
                    assert(full[t] == rows@[t]);
                }
            }
            assert forall|a: int, b: int| #![trigger full[a], full[b]]
                0 <= a < b < full.len()
                implies crate::sort::spec_row_le(full[a], full[b], sort) by {
                assert(crate::sort::spec_row_le(rows@[a], rows@[b], sort));
                lemma_like_rows_le(full[a], rows@[a], full[b], rows@[b], sort);
            }
            assert forall|i: int| 0 <= i < full.len()
                implies row_from_table(#[trigger] full[i], self.entries@, *f) by {
                if start <= i < end {
                    assert(full[i] == out@[i - start]);
                } else {
                    assert(full[i] == rows@[i]);
                }
            }
            assert forall|a: int, b: int| 0 <= a < b < full.len()
                implies (#[trigger] full[a]).1.index != (#[trigger] full[b]).1.index by {
                assert(full[a].1.index == rows@[a].1.index);
                assert(full[b].1.index == rows@[b].1.index);
                assert(rows@[a].1.index != rows@[b].1.index);
            }
            assert(out@ =~= full.subrange(start as int, end as int));
            assert(crate::sort::sorted_rows(full, sort));
        }
        (out, total)
    }
}

/// The key found at a row is the row that lookup names: in a table with
/// unique keys, `key_at` inverts indexing.
pub proof fn lemma_key_at(s: Seq<(FlowKey, FlowStats)>, next_index: u64, i: int)
    requires
        table_wf(s, next_index),
        0 <= i < s.len(),
    ensures
        has_key(s, s[i].0),
        key_at(s, s[i].0) == i,
{
    assert(has_key(s, s[i].0));
    let w = key_at(s, s[i].0);
    if w < i {
        assert(s[w].0 != s[i].0);
    }
    if i < w {
        assert(s[i].0 != s[w].0);
    }
}

/// Merging a fitting observation into a well-formed aggregate yields a
/// well-formed aggregate.
pub proof fn lemma_merged_wf(st: FlowStats, delta_bytes: u64, delta_packets: u64,
    protocol: TransProtocol, direction: TrafficDirection, now: u64)
    requires
        st.wf(),
        observe_fits(st, delta_bytes, delta_packets, direction),
        delta_bytes > 0 ==> delta_packets > 0,
    ensures
        merged_stats(st, delta_bytes, delta_packets, protocol, direction, now).wf(),
{
}

/// A freshly allocated aggregate is well formed.
pub proof fn lemma_fresh_wf(delta_bytes: u64, delta_packets: u64, protocol: TransProtocol,
    direction: TrafficDirection, now: u64, index: u64)
    requires
        delta_bytes > 0 ==> delta_packets > 0,
    ensures
        fresh_stats(delta_bytes, delta_packets, protocol, direction, now, index).wf(),
{
}

/// Bytes so far counted toward a key in the given direction; zero while
/// the key is absent.
pub open spec fn bytes_toward(s: Seq<(FlowKey, FlowStats)>, k: FlowKey,
    direction: TrafficDirection) -> int {
    if has_key(s, k) {
        match direction {
            TrafficDirection::Outgoing => stats_of(s, k).transmitted_bytes as int,
            TrafficDirection::Incoming => stats_of(s, k).received_bytes as int,
            TrafficDirection::Unknown => 0,
        }
    } else {
        0
    }
}

/// One observation step keeps the table well formed, leaves the key
/// present when it was recorded, and grows the key's directional byte
/// counter by exactly the observed delta.
pub proof fn lemma_step_preserves(s: Seq<(FlowKey, FlowStats)>, next_index: u64, k: FlowKey,
    delta_bytes: u64, delta_packets: u64, protocol: TransProtocol,
    direction: TrafficDirection, now: u64)
    requires
        table_wf(s, next_index),
        delta_bytes > 0 ==> delta_packets > 0,
    ensures
        ({
            let st = step_table(s, next_index, k, delta_bytes, delta_packets, protocol,
                direction, now);
            &&& table_wf(st.0, st.1)
            &&& st.2 ==> has_key(st.0, k)
            &&& st.2 && direction != TrafficDirection::Unknown ==> bytes_toward(st.0, k,
                direction) == bytes_toward(s, k, direction) + delta_bytes
        }),
{
    let st = step_table(s, next_index, k, delta_bytes, delta_packets, protocol, direction,
        now);
    if has_key(s, k) {
        let i = key_at(s, k);
        if observe_fits(stats_of(s, k), delta_bytes, delta_packets, direction) {
            let m = merged_stats(stats_of(s, k), delta_bytes, delta_packets, protocol,
                direction, now);
            lemma_merged_wf(stats_of(s, k), delta_bytes, delta_packets, protocol, direction,
                now);
            lemma_table_wf_update(s, next_index, i, m);
            assert(st.0 == s.update(i, (s[i].0, m)));
            lemma_key_at(st.0, next_index, i);
            assert(stats_of(st.0, k) == m);
        }
    } else {
        if next_index < u64::MAX {
            let f = fresh_stats(delta_bytes, delta_packets, protocol, direction, now,
                next_index);
            lemma_fresh_wf(delta_bytes, delta_packets, protocol, direction, now, next_index);
            lemma_table_wf_push(s, next_index, k, f);
            lemma_key_at(st.0, st.1, s.len() as int);
            assert(stats_of(st.0, k) == f);
        }
    }
}

/// For the life of a record, its counters never decrease and its
/// ordinal never moves, whatever is observed on any key; the ordinal
/// dispenser itself never decreases either.
pub proof fn lemma_counters_monotone(s: Seq<(FlowKey, FlowStats)>, next_index: u64,
    k: FlowKey, delta_bytes: u64, delta_packets: u64, protocol: TransProtocol,
    direction: TrafficDirection, now: u64, k2: FlowKey)
    requires
        table_wf(s, next_index),
        has_key(s, k2),
        delta_bytes > 0 ==> delta_packets > 0,
    ensures
        ({
            let st = step_table(s, next_index, k, delta_bytes, delta_packets, protocol,
                direction, now);
            &&& st.1 >= next_index
            &&& has_key(st.0, k2)
            &&& stats_of(st.0, k2).transmitted_bytes >= stats_of(s, k2).transmitted_bytes
            &&& stats_of(st.0, k2).transmitted_packets
                >= stats_of(s, k2).transmitted_packets
            &&& stats_of(st.0, k2).received_bytes >= stats_of(s, k2).received_bytes
            &&& stats_of(st.0, k2).received_packets >= stats_of(s, k2).received_packets
            &&& stats_of(st.0, k2).index == stats_of(s, k2).index
        }),
{
    let st = step_table(s, next_index, k, delta_bytes, delta_packets, protocol, direction,
        now);
    let i2 = key_at(s, k2);
    lemma_key_at(s, next_index, i2);
    if has_key(s, k) {
        let i = key_at(s, k);
        lemma_key_at(s, next_index, i);
        if observe_fits(stats_of(s, k), delta_bytes, delta_packets, direction) {
            let m = merged_stats(stats_of(s, k), delta_bytes, delta_packets, protocol,
                direction, now);
            lemma_merged_wf(stats_of(s, k), delta_bytes, delta_packets, protocol,
                direction, now);
            lemma_table_wf_update(s, next_index, i, m);
            assert(st.0 == s.update(i, (s[i].0, m)));
            if k2 == k {
                lemma_key_at(st.0, next_index, i);
                assert(stats_of(st.0, k2) == m);
            } else {
                assert(st.0[i2] == s[i2]);
                lemma_key_at(st.0, next_index, i2);
            }
        }
    } else {
        if next_index < u64::MAX {
            let f = fresh_stats(delta_bytes, delta_packets, protocol, direction, now,
                next_index);
            lemma_fresh_wf(delta_bytes, delta_packets, protocol, direction, now,
                next_index);
            lemma_table_wf_push(s, next_index, k, f);
            assert(st.0[i2] == s[i2]);
            lemma_key_at(st.0, st.1, i2);
        }
    }
}

/// A run of observations toward one key, stopping at the first refused
/// one; the third component tells whether every observation was
/// recorded.
pub open spec fn run_observes(s: Seq<(FlowKey, FlowStats)>, next_index: u64, k: FlowKey,
    deltas: Seq<(u64, u64)>, protocol: TransProtocol, direction: TrafficDirection,
    now: u64) -> (Seq<(FlowKey, FlowStats)>, u64, bool)
    decreases deltas.len(),
{
    if deltas.len() == 0 {
        (s, next_index, true)
    } else {
        let st = step_table(s, next_index, k, deltas[0].0, deltas[0].1, protocol, direction,
            now);
        if !st.2 {
            (st.0, st.1, false)
        } else {
            run_observes(st.0, st.1, k, deltas.drop_first(), protocol, direction, now)
        }
    }
}

/// The bytes of a run of observations, added up.
pub open spec fn sum_bytes(deltas: Seq<(u64, u64)>) -> int
    decreases deltas.len(),
{
    if deltas.len() == 0 {
        0
    } else {
        deltas[0].0 + sum_bytes(deltas.drop_first())
    }
}

/// A sequence of recorded observations totaling B bytes toward a key
/// and direction leaves that key's directional byte counter exactly B
/// above where it started.
pub proof fn lemma_observe_run_totals(s: Seq<(FlowKey, FlowStats)>, next_index: u64,
    k: FlowKey, deltas: Seq<(u64, u64)>, protocol: TransProtocol,
    direction: TrafficDirection, now: u64)
    requires
        table_wf(s, next_index),
        direction != TrafficDirection::Unknown,
        forall|i: int| 0 <= i < deltas.len()
            ==> ((#[trigger] deltas[i]).0 > 0 ==> deltas[i].1 > 0),
    ensures
        ({
            let r = run_observes(s, next_index, k, deltas, protocol, direction, now);
            &&& table_wf(r.0, r.1)
            &&& r.2 ==> bytes_toward(r.0, k, direction) == bytes_toward(s, k, direction)
                + sum_bytes(deltas)
        }),
    decreases deltas.len(),
{
    if deltas.len() == 0 {
    } else {
        let st = step_table(s, next_index, k, deltas[0].0, deltas[0].1, protocol, direction,
            now);
        lemma_step_preserves(s, next_index, k, deltas[0].0, deltas[0].1, protocol, direction,
            now);
        if st.2 {
            assert(forall|i: int| 0 <= i < deltas.drop_first().len()
                ==> ((#[trigger] deltas.drop_first()[i]).0 > 0
                    ==> deltas.drop_first()[i].1 > 0));
            lemma_observe_run_totals(st.0, st.1, k, deltas.drop_first(), protocol, direction,
                now);
        }
    }
}

/// Merging two observations into one aggregate is commutative for the
/// counters, takes the union of the protocols seen, and takes the
/// minimum first and maximum latest timestamp, whichever observation
/// comes first.
pub proof fn lemma_merge_commutes(st: FlowStats, b1: u64, p1: u64, proto1: TransProtocol,
    dir1: TrafficDirection, now1: u64, b2: u64, p2: u64, proto2: TransProtocol,
    dir2: TrafficDirection, now2: u64)
    requires
        observe_fits(st, b1, p1, dir1),
        observe_fits(st, b2, p2, dir2),
        observe_fits(merged_stats(st, b1, p1, proto1, dir1, now1), b2, p2, dir2),
        observe_fits(merged_stats(st, b2, p2, proto2, dir2, now2), b1, p1, dir1),
    ensures
        ({
            let ab = merged_stats(merged_stats(st, b1, p1, proto1, dir1, now1), b2, p2,
                proto2, dir2, now2);
            let ba = merged_stats(merged_stats(st, b2, p2, proto2, dir2, now2), b1, p1,
                proto1, dir1, now1);
            &&& ab.transmitted_bytes == ba.transmitted_bytes
            &&& ab.transmitted_packets == ba.transmitted_packets
            &&& ab.received_bytes == ba.received_bytes
            &&& ab.received_packets == ba.received_packets
            &&& ab.initial_timestamp == ba.initial_timestamp
            &&& ab.final_timestamp == ba.final_timestamp
            &&& ab.protocols_seen == ba.protocols_seen
            &&& ab.owner == ba.owner
            &&& ab.index == ba.index
        }),
{
}

/// The invariants every aggregate of a well-formed table satisfies:
/// byte counters are no smaller than zero packets' worth, a zero packet
/// counter forces a zero byte counter, and the first observation is no
/// later than the latest one.
pub proof fn lemma_stats_invariants(s: Seq<(FlowKey, FlowStats)>, next_index: u64, i: int)
    requires
        table_wf(s, next_index),
        0 <= i < s.len(),
    ensures
        s[i].1.transmitted_bytes >= s[i].1.transmitted_packets * 0,
        s[i].1.received_bytes >= s[i].1.received_packets * 0,
        s[i].1.transmitted_packets == 0 ==> s[i].1.transmitted_bytes == 0,
        s[i].1.received_packets == 0 ==> s[i].1.received_bytes == 0,
        s[i].1.initial_timestamp <= s[i].1.final_timestamp,
{
    assert(s[i].1.wf());
}

} // verus!
