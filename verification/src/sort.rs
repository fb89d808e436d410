//! Ordering of report rows: every row kind exposes a major key taken
//! descending under the active comparator and a unique tie key taken
//! ascending, and one insertion sort orders any of them.

use vstd::prelude::*;

use crate::flow::{FlowKey, FlowStats};
use crate::flow_table::ReportSortType;
use crate::report::{MonitoredPort, MonitoredProcess, MonitoredUser};

verus! {

/// A row that reports can order: rows stand by descending major key,
/// ties broken by ascending tie key.
pub trait SortRow: Sized {
    /// What the active comparator ranks by; larger comes first.
    spec fn major_key(self, sort: ReportSortType) -> int;

    /// The deterministic tie break; smaller comes first.
    spec fn tie_key(self) -> int;

    /// Whether `self` may stand before `other`: a larger major key, or
    /// an equal one with a tie key no larger.
    fn le_under(&self, other: &Self, sort: ReportSortType) -> (r: bool)
        ensures
            r == ((*self).major_key(sort) > (*other).major_key(sort)
                || ((*self).major_key(sort) == (*other).major_key(sort)
                    && (*self).tie_key() <= (*other).tie_key())),
    ;
}

/// Whether `a` may stand before `b`: a larger major key, or an equal
/// one with a tie key no larger.
pub open spec fn spec_row_le<T: SortRow>(a: T, b: T, sort: ReportSortType) -> bool {
    a.major_key(sort) > b.major_key(sort) || (a.major_key(sort) == b.major_key(sort)
        && a.tie_key() <= b.tie_key())
}

/// Every pair of rows stands in order.
pub open spec fn sorted_rows<T: SortRow>(s: Seq<T>, sort: ReportSortType) -> bool {
    forall|i: int, j: int| #![trigger s[i], s[j]]
        0 <= i < j < s.len() ==> spec_row_le(s[i], s[j], sort)
}

/// A sequence with one more element holds the old elements and the new
/// one, as a multiset.
pub proof fn lemma_to_multiset_insert<T>(s: Seq<T>, i: int, x: T)
    requires
        0 <= i <= s.len(),
    ensures
        s.insert(i, x).to_multiset() == s.to_multiset().insert(x),
{
    broadcast use vstd::seq_lib::group_to_multiset_ensures;

    let t = s.insert(i, x);
    assert(t.remove(i) =~= s);
    assert(t[i] == x);
    assert(s.to_multiset() == t.to_multiset().remove(x));
    assert(t.to_multiset().count(x) > 0) by {
        assert(t.contains(x));
    }
    assert(t.to_multiset() =~= s.to_multiset().insert(x));
}

/// Sort rows in place: afterwards every pair stands in order and the
/// rows are the same ones, as a multiset.
pub fn sort_rows<T: SortRow>(sort: ReportSortType, v: &mut Vec<T>)
    ensures
        sorted_rows(final(v)@, sort),
        final(v)@.to_multiset() == old(v)@.to_multiset(),
        final(v)@.len() == old(v)@.len(),
{
    if v.len() <= 1 {
        return;
    }
    let mut i: usize = 1;
    while i < v.len()
        invariant
            1 <= i <= v@.len(),
            v@.len() == old(v)@.len(),
            v@.to_multiset() == old(v)@.to_multiset(),
            sorted_rows(v@.subrange(0, i as int), sort),
        decreases v@.len() - i,
    {
        let ghost whole = v@;
        let x = v.remove(i);
        proof {
            broadcast use vstd::seq_lib::group_to_multiset_ensures;

            assert(v@ =~= whole.remove(i as int));
            assert(v@.subrange(0, i as int) =~= whole.subrange(0, i as int));
        }
        let ghost removed = v@;
        let mut j: usize = 0;
        while j < i && v[j].le_under(&x, sort)
            invariant
                j <= i,
                i < v@.len() + 1,
                v@ == removed,
                forall|t: int| 0 <= t < j ==> spec_row_le(v@[t], x, sort),
            decreases i - j,
        {
            j += 1;
        }
        proof {
            lemma_to_multiset_insert(removed, j as int, x);
        }
        v.insert(j, x);
        proof {
            let now = v@;
            assert forall|a: int, b: int| #![trigger now[a], now[b]]
                0 <= a < b < i + 1 implies spec_row_le(now[a], now[b], sort) by {
                let sortedpre = whole.subrange(0, i as int);
                assert(forall|t: int| 0 <= t < i ==> removed[t] == sortedpre[t]);
                if b < j {
                    assert(spec_row_le(sortedpre[a], sortedpre[b], sort));
                } else if b == j {
                    assert(now[b] == x);
                    assert(spec_row_le(removed[a], x, sort));
                } else {
                    // b > j: now[b] is the old row at b - 1
                    assert(now[b] == removed[b - 1]);
                    if j < i {
                        assert(!spec_row_le(removed[j as int], x, sort));
                        assert(spec_row_le(x, removed[j as int], sort));
                        if j < b - 1 {
                            assert(spec_row_le(sortedpre[j as int], sortedpre[b - 1], sort));
                        }
                    }
                    if a < j {
                        assert(spec_row_le(removed[a], x, sort));
                        assert(spec_row_le(now[a], now[b], sort));
                    } else if a == j {
                        assert(now[a] == x);
                    } else {
                        assert(now[a] == removed[a - 1]);
                        assert(spec_row_le(sortedpre[a - 1], sortedpre[b - 1], sort));
                    }
                }
            }
            assert(sorted_rows(v@.subrange(0, i + 1), sort)) by {
                assert(forall|t: int| 0 <= t < i + 1
                    ==> v@.subrange(0, i + 1)[t] == v@[t]);
            }
        }
        i += 1;
    }
    proof {
        assert(v@.subrange(0, v@.len() as int) =~= v@);
    }
}

impl SortRow for (FlowKey, FlowStats) {
    /// Most-recent ranks by latest observation, most-bytes by total
    /// bytes both ways, most-packets by total packets both ways.
    open spec fn major_key(self, sort: ReportSortType) -> int {
        match sort {
            ReportSortType::MostRecent => self.1.final_timestamp as int,
            ReportSortType::MostBytes => self.1.transmitted_bytes + self.1.received_bytes,
            ReportSortType::MostPackets => self.1.transmitted_packets
                + self.1.received_packets,
        }
    }

    /// The insertion ordinal, unique per flow.
    open spec fn tie_key(self) -> int {
        self.1.index as int
    }

    fn le_under(&self, other: &Self, sort: ReportSortType) -> (r: bool) {
        match sort {
            ReportSortType::MostRecent => {
                self.1.final_timestamp > other.1.final_timestamp
                    || (self.1.final_timestamp == other.1.final_timestamp
                        && self.1.index <= other.1.index)
            },
            ReportSortType::MostBytes => {
                sums_gt(self.1.transmitted_bytes, self.1.received_bytes,
                    other.1.transmitted_bytes, other.1.received_bytes)
                    || (sums_eq(self.1.transmitted_bytes, self.1.received_bytes,
                        other.1.transmitted_bytes, other.1.received_bytes)
                        && self.1.index <= other.1.index)
            },
            ReportSortType::MostPackets => {
                sums_gt(self.1.transmitted_packets, self.1.received_packets,
                    other.1.transmitted_packets, other.1.received_packets)
                    || (sums_eq(self.1.transmitted_packets, self.1.received_packets,
                        other.1.transmitted_packets, other.1.received_packets)
                        && self.1.index <= other.1.index)
            },
        }
    }
}

/// Whether one two-part sum exceeds another, without widening.
fn sums_gt(a1: u128, a2: u128, b1: u128, b2: u128) -> (r: bool)
    ensures
        r == (a1 + a2 > b1 + b2),
{
    if a1 >= b1 {
        let d = a1 - b1;
        if a2 >= b2 {
            d > 0 || a2 > b2
        } else {
            d > b2 - a2
        }
    } else {
        let d = b1 - a1;
        if b2 >= a2 {
            false
        } else {
            a2 - b2 > d
        }
    }
}

/// Whether two two-part sums are equal, without widening.
fn sums_eq(a1: u128, a2: u128, b1: u128, b2: u128) -> (r: bool)
    ensures
        r == (a1 + a2 == b1 + b2),
{
    if a1 >= b1 {
        b2 >= a2 && b2 - a2 == a1 - b1
    } else {
        a2 >= b2 && a2 - b2 == b1 - a1
    }
}

impl SortRow for MonitoredProcess {
    /// Most-bytes and most-packets rank by the bucket sums; the
    /// most-recent comparator does not apply to buckets and leaves
    /// rows ordered by process alone.
    open spec fn major_key(self, sort: ReportSortType) -> int {
        match sort {
            ReportSortType::MostRecent => 0,
            ReportSortType::MostBytes => self.total_received_bytes + self.total_sent_bytes,
            ReportSortType::MostPackets => self.total_received_packets
                + self.total_sent_packets,
        }
    }

    open spec fn tie_key(self) -> int {
        self.pid as int
    }

    fn le_under(&self, other: &Self, sort: ReportSortType) -> (r: bool) {
        match sort {
            ReportSortType::MostRecent => self.pid <= other.pid,
            ReportSortType::MostBytes => {
                sums_gt(self.total_received_bytes, self.total_sent_bytes,
                    other.total_received_bytes, other.total_sent_bytes)
                    || (sums_eq(self.total_received_bytes, self.total_sent_bytes,
                        other.total_received_bytes, other.total_sent_bytes)
                        && self.pid <= other.pid)
            },
            ReportSortType::MostPackets => {
                sums_gt(self.total_received_packets, self.total_sent_packets,
                    other.total_received_packets, other.total_sent_packets)
                    || (sums_eq(self.total_received_packets, self.total_sent_packets,
                        other.total_received_packets, other.total_sent_packets)
                        && self.pid <= other.pid)
            },
        }
    }
}

impl SortRow for MonitoredPort {
    /// As for process buckets, with the port as the tie key.
    open spec fn major_key(self, sort: ReportSortType) -> int {
        match sort {
            ReportSortType::MostRecent => 0,
            ReportSortType::MostBytes => self.total_received_bytes + self.total_sent_bytes,
            ReportSortType::MostPackets => self.total_received_packets
                + self.total_sent_packets,
        }
    }

    open spec fn tie_key(self) -> int {
        self.port as int
    }

    fn le_under(&self, other: &Self, sort: ReportSortType) -> (r: bool) {
        match sort {
            ReportSortType::MostRecent => self.port <= other.port,
            ReportSortType::MostBytes => {
                sums_gt(self.total_received_bytes, self.total_sent_bytes,
                    other.total_received_bytes, other.total_sent_bytes)
                    || (sums_eq(self.total_received_bytes, self.total_sent_bytes,
                        other.total_received_bytes, other.total_sent_bytes)
                        && self.port <= other.port)
            },
            ReportSortType::MostPackets => {
                sums_gt(self.total_received_packets, self.total_sent_packets,
                    other.total_received_packets, other.total_sent_packets)
                    || (sums_eq(self.total_received_packets, self.total_sent_packets,
                        other.total_received_packets, other.total_sent_packets)
                        && self.port <= other.port)
            },
        }
    }
}

impl SortRow for MonitoredUser {
    /// As for process buckets, with the user as the tie key.
    open spec fn major_key(self, sort: ReportSortType) -> int {
        match sort {
            ReportSortType::MostRecent => 0,
            ReportSortType::MostBytes => self.total_received_bytes + self.total_sent_bytes,
            ReportSortType::MostPackets => self.total_received_packets
                + self.total_sent_packets,
        }
    }

    open spec fn tie_key(self) -> int {
        self.uid as int
    }

    fn le_under(&self, other: &Self, sort: ReportSortType) -> (r: bool) {
        match sort {
            ReportSortType::MostRecent => self.uid <= other.uid,
            ReportSortType::MostBytes => {
                sums_gt(self.total_received_bytes, self.total_sent_bytes,
                    other.total_received_bytes, other.total_sent_bytes)
                    || (sums_eq(self.total_received_bytes, self.total_sent_bytes,
                        other.total_received_bytes, other.total_sent_bytes)
                        && self.uid <= other.uid)
            },
            ReportSortType::MostPackets => {
                sums_gt(self.total_received_packets, self.total_sent_packets,
                    other.total_received_packets, other.total_sent_packets)
                    || (sums_eq(self.total_received_packets, self.total_sent_packets,
                        other.total_received_packets, other.total_sent_packets)
                        && self.uid <= other.uid)
            },
        }
    }
}

} // verus!
