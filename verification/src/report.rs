//! The report aggregator: query-time rollups of the flow table by
//! process, port or user, each bucket carrying the four cumulative
//! counters of the flows attributed to it.

use vstd::prelude::*;

use crate::CoreError;
use crate::flow::{FlowKey, FlowStats};

verus! {

/// Which view of the table a report shows.
#[derive(Clone, Copy, PartialEq, Eq, Structural, Debug)]
pub enum ReportView {
    Detailed,
    Process,
    User,
    Port,
}

impl ReportView {
    pub open spec fn spec_radio_label(self) -> Seq<char> {
        match self {
            ReportView::Detailed => "Detailed"@,
            ReportView::Process => "Process"@,
            ReportView::User => "User"@,
            ReportView::Port => "Port"@,
        }
    }

    /// The label shown beside this view's radio button.
    pub fn get_radio_label(&self) -> (r: &'static str)
        ensures
            r@ == self.spec_radio_label(),
    {
        match self {
            ReportView::Detailed => "Detailed",
            ReportView::Process => "Process",
            ReportView::User => "User",
            ReportView::Port => "Port",
        }
    }
}

/// The rollup bucket of one process.
#[derive(Clone, Copy, PartialEq, Eq, Structural, Debug)]
pub struct MonitoredProcess {
    pub pid: u32,
    pub total_sent_bytes: u128,
    pub total_sent_packets: u128,
    pub total_received_bytes: u128,
    pub total_received_packets: u128,
}

impl MonitoredProcess {
    pub fn new(pid: u32) -> (r: MonitoredProcess)
        ensures
            r.pid == pid,
            r.total_sent_bytes == 0,
            r.total_sent_packets == 0,
            r.total_received_bytes == 0,
            r.total_received_packets == 0,
    {
        MonitoredProcess {
            pid,
            total_sent_bytes: 0,
            total_sent_packets: 0,
            total_received_bytes: 0,
            total_received_packets: 0,
        }
    }
}

/// The rollup bucket of one local port.
#[derive(Clone, Copy, PartialEq, Eq, Structural, Debug)]
pub struct MonitoredPort {
    pub port: u16,
    pub total_sent_bytes: u128,
    pub total_sent_packets: u128,
    pub total_received_bytes: u128,
    pub total_received_packets: u128,
}

impl MonitoredPort {
    pub fn new(port: u16) -> (r: MonitoredPort)
        ensures
            r.port == port,
            r.total_sent_bytes == 0,
            r.total_sent_packets == 0,
            r.total_received_bytes == 0,
            r.total_received_packets == 0,
    {
        MonitoredPort {
            port,
            total_sent_bytes: 0,
            total_sent_packets: 0,
            total_received_bytes: 0,
            total_received_packets: 0,
        }
    }
}

/// The rollup bucket of one user.
#[derive(Clone, Copy, PartialEq, Eq, Structural, Debug)]
pub struct MonitoredUser {
    pub uid: u32,
    pub total_sent_bytes: u128,
    pub total_sent_packets: u128,
    pub total_received_bytes: u128,
    pub total_received_packets: u128,
}

impl MonitoredUser {
    pub fn new(uid: u32) -> (r: MonitoredUser)
        ensures
            r.uid == uid,
            r.total_sent_bytes == 0,
            r.total_sent_packets == 0,
            r.total_received_bytes == 0,
            r.total_received_packets == 0,
    {
        MonitoredUser {
            uid,
            total_sent_bytes: 0,
            total_sent_packets: 0,
            total_received_bytes: 0,
            total_received_packets: 0,
        }
    }
}

/// The four counters one flow adds to a bucket it contributes to:
/// received bytes, received packets, transmitted bytes, transmitted
/// packets.
pub open spec fn flow_contribution(e: (FlowKey, FlowStats)) -> (int, int, int, int) {
    (
        e.1.received_bytes as int,
        e.1.received_packets as int,
        e.1.transmitted_bytes as int,
        e.1.transmitted_packets as int,
    )
}

pub open spec fn add4(a: (int, int, int, int), b: (int, int, int, int))
    -> (int, int, int, int) {
    (a.0 + b.0, a.1 + b.1, a.2 + b.2, a.3 + b.3)
}

/// Whether a counter quadruple exceeds what the bucket fields can hold.
pub open spec fn totals_overflow(t: (int, int, int, int)) -> bool {
    t.0 > u128::MAX || t.1 > u128::MAX || t.2 > u128::MAX || t.3 > u128::MAX
}

/// Whether a flow is attributed to this process: its owner set holds
/// the process, or it has no owner and the process is the sentinel
/// bucket zero.
pub open spec fn contributes_pid(e: (FlowKey, FlowStats), pid: u32) -> bool {
    match e.1.owner {
        Some(o) => o.spec_has_pid(pid),
        None => pid == 0,
    }
}

/// The counters of all flows attributed to this process, added up.
pub open spec fn totals_for_pid(s: Seq<(FlowKey, FlowStats)>, pid: u32)
    -> (int, int, int, int)
    decreases s.len(),
{
    if s.len() == 0 {
        (0, 0, 0, 0)
    } else {
        let rest = totals_for_pid(s.drop_last(), pid);
        if contributes_pid(s.last(), pid) {
            add4(rest, flow_contribution(s.last()))
        } else {
            rest
        }
    }
}

/// Whether any flow of the table is attributed to this process.
pub open spec fn pid_present(s: Seq<(FlowKey, FlowStats)>, pid: u32) -> bool
    decreases s.len(),
{
    if s.len() == 0 {
        false
    } else {
        pid_present(s.drop_last(), pid) || contributes_pid(s.last(), pid)
    }
}

/// Process totals are componentwise at least zero.
pub proof fn lemma_totals_for_pid_nonneg(s: Seq<(FlowKey, FlowStats)>, pid: u32)
    ensures
        totals_for_pid(s, pid).0 >= 0,
        totals_for_pid(s, pid).1 >= 0,
        totals_for_pid(s, pid).2 >= 0,
        totals_for_pid(s, pid).3 >= 0,
    decreases s.len(),
{
    if s.len() > 0 {
        lemma_totals_for_pid_nonneg(s.drop_last(), pid);
    }
}

/// A prefix of the table never exceeds the whole table's process
/// totals.
pub proof fn lemma_totals_for_pid_prefix(s: Seq<(FlowKey, FlowStats)>, pid: u32, i: int)
    requires
        0 <= i <= s.len(),
    ensures
        totals_for_pid(s.subrange(0, i), pid).0 <= totals_for_pid(s, pid).0,
        totals_for_pid(s.subrange(0, i), pid).1 <= totals_for_pid(s, pid).1,
        totals_for_pid(s.subrange(0, i), pid).2 <= totals_for_pid(s, pid).2,
        totals_for_pid(s.subrange(0, i), pid).3 <= totals_for_pid(s, pid).3,
    decreases s.len() - i,
{
    if i == s.len() {
        assert(s.subrange(0, i) =~= s);
    } else {
        assert(s.subrange(0, i + 1).drop_last() =~= s.subrange(0, i));
        assert(s.subrange(0, i + 1).last() == s[i]);
        lemma_totals_for_pid_prefix(s, pid, i + 1);
        lemma_totals_for_pid_nonneg(s.subrange(0, i), pid);
    }
}

fn vec_contains_u32(v: &Vec<u32>, x: u32) -> (r: bool)
    ensures
        r == v@.contains(x),
{
    let mut i: usize = 0;
    while i < v.len()
        invariant
            i <= v@.len(),
            forall|j: int| 0 <= j < i ==> v@[j] != x,
        decreases v@.len() - i,
    {
        if v[i] == x {
            return true;
        }
        i += 1;
    }
    false
}

/// Whether this flow is attributed to this process; see
/// `contributes_pid`.
fn flow_contributes_pid(e: &(FlowKey, FlowStats), pid: u32) -> (r: bool)
    ensures
        r == contributes_pid(*e, pid),
{
    match &e.1.owner {
        Some(o) => o.has_pid(pid),
        None => pid == 0,
    }
}

/// Add up the counters of every flow attributed to this process.
/// `None` exactly when the exact sum exceeds what the bucket can hold.
fn scan_totals_pid(entries: &Vec<(FlowKey, FlowStats)>, pid: u32)
    -> (r: Option<(u128, u128, u128, u128)>)
    ensures
        match r {
            Some(t) => (t.0 as int, t.1 as int, t.2 as int, t.3 as int)
                == totals_for_pid(entries@, pid),
            None => totals_overflow(totals_for_pid(entries@, pid)),
        },
        r is Some <==> !totals_overflow(totals_for_pid(entries@, pid)),
{
    let mut rb: u128 = 0;
    let mut rp: u128 = 0;
    let mut tb: u128 = 0;
    let mut tp: u128 = 0;
    let mut i: usize = 0;
    while i < entries.len()
        invariant
            i <= entries@.len(),
            (rb as int, rp as int, tb as int, tp as int)
                == totals_for_pid(entries@.subrange(0, i as int), pid),
        decreases entries@.len() - i,
    {
        proof {
            assert(entries@.subrange(0, i + 1).drop_last() =~= entries@.subrange(0, i as int));
            assert(entries@.subrange(0, i + 1).last() == entries@[i as int]);
        }
        if flow_contributes_pid(&entries[i], pid) {
            let st = &entries[i].1;
            if rb > u128::MAX - st.received_bytes || rp > u128::MAX - st.received_packets
                || tb > u128::MAX - st.transmitted_bytes
                || tp > u128::MAX - st.transmitted_packets {
                proof {
                    lemma_totals_for_pid_prefix(entries@, pid, i + 1);
                    lemma_totals_for_pid_nonneg(entries@.subrange(0, i as int), pid);
                }
                return None;
            }
            rb = rb + st.received_bytes;
            rp = rp + st.received_packets;
            tb = tb + st.transmitted_bytes;
            tp = tp + st.transmitted_packets;
        }
        i += 1;
    }
    proof {
        assert(entries@.subrange(0, entries@.len() as int) =~= entries@);
    }
    Some((rb, rp, tb, tp))
}

/// Every process some flow is attributed to, each once; ownerless
/// flows put the sentinel process zero on the list.
fn collect_pids(entries: &Vec<(FlowKey, FlowStats)>) -> (r: Vec<u32>)
    ensures
        forall|a: int, b: int| 0 <= a < b < r@.len() ==> r@[a] != r@[b],
        forall|pid: u32| r@.contains(pid) <==> pid_present(entries@, pid),
{
    let mut r: Vec<u32> = Vec::new();
    let mut i: usize = 0;
    while i < entries.len()
        invariant
            i <= entries@.len(),
            forall|a: int, b: int| 0 <= a < b < r@.len() ==> r@[a] != r@[b],
            forall|pid: u32| r@.contains(pid)
                == pid_present(entries@.subrange(0, i as int), pid),
        decreases entries@.len() - i,
    {
        proof {
            assert(entries@.subrange(0, i + 1).drop_last() =~= entries@.subrange(0, i as int));
            assert(entries@.subrange(0, i + 1).last() == entries@[i as int]);
        }
        match &entries[i].1.owner {
            Some(o) => {
                let mut j: usize = 0;
                while j < o.pids.len()
                    invariant
                        i < entries@.len(),
                        j <= o.pids@.len(),
                        entries@[i as int].1.owner == Some(*o),
                        forall|a: int, b: int| 0 <= a < b < r@.len() ==> r@[a] != r@[b],
                        forall|pid: u32| r@.contains(pid)
                            == (pid_present(entries@.subrange(0, i as int), pid)
                                || o.pids@.subrange(0, j as int).contains(pid)),
                    decreases o.pids@.len() - j,
                {
                    let pid = o.pids[j];
                    proof {
                        crate::flow::lemma_push_contains(o.pids@.subrange(0, j as int), pid,
                            pid);
                        assert(o.pids@.subrange(0, j + 1)
                            =~= o.pids@.subrange(0, j as int).push(pid));
                    }
                    if !vec_contains_u32(&r, pid) {
                        let ghost prev = r@;
                        r.push(pid);
                        proof {
                            assert forall|a: int, b: int| 0 <= a < b < r@.len()
                                implies r@[a] != r@[b] by {
                                if b == prev.len() {
                                    assert(prev.contains(prev[a]));
                                }
                            }
                            assert forall|p: u32| r@.contains(p)
                                == (pid_present(entries@.subrange(0, i as int), p)
                                    || o.pids@.subrange(0, j + 1).contains(p)) by {
                                crate::flow::lemma_push_contains(prev, pid, p);
                                crate::flow::lemma_push_contains(
                                    o.pids@.subrange(0, j as int), pid, p);
                                assert(prev.contains(p)
                                    == (pid_present(entries@.subrange(0, i as int), p)
                                        || o.pids@.subrange(0, j as int).contains(p)));
                            }
                        }
                    } else {
                        proof {
                            assert forall|p: u32| r@.contains(p)
                                == (pid_present(entries@.subrange(0, i as int), p)
                                    || o.pids@.subrange(0, j + 1).contains(p)) by {
                                crate::flow::lemma_push_contains(
                                    o.pids@.subrange(0, j as int), pid, p);
                            }
                        }
                    }
                    j += 1;
                }
                proof {
                    assert(o.pids@.subrange(0, o.pids@.len() as int) =~= o.pids@);
                    assert forall|pid: u32| r@.contains(pid)
                        == pid_present(entries@.subrange(0, i + 1), pid) by {
                        assert(pid_present(entries@.subrange(0, i + 1), pid)
                            == (pid_present(entries@.subrange(0, i as int), pid)
                                || contributes_pid(entries@[i as int], pid)));
                        assert(contributes_pid(entries@[i as int], pid)
                            == o.pids@.contains(pid));
                    }
                }
            },
            None => {
                if !vec_contains_u32(&r, 0) {
                    let ghost prev = r@;
                    r.push(0);
                    proof {
                        assert forall|a: int, b: int| 0 <= a < b < r@.len()
                            implies r@[a] != r@[b] by {
                            if b == prev.len() {
                                assert(prev.contains(prev[a]));
                            }
                        }
                        assert forall|pid: u32| r@.contains(pid)
                            == pid_present(entries@.subrange(0, i + 1), pid) by {
                            crate::flow::lemma_push_contains(prev, 0, pid);
                            assert(prev.contains(pid)
                                == pid_present(entries@.subrange(0, i as int), pid));
                            assert(pid_present(entries@.subrange(0, i + 1), pid)
                                == (pid_present(entries@.subrange(0, i as int), pid)
                                    || contributes_pid(entries@[i as int], pid)));
                            assert(contributes_pid(entries@[i as int], pid) == (pid == 0));
                        }
                    }
                } else {
                    proof {
                        assert forall|pid: u32| r@.contains(pid)
                            == pid_present(entries@.subrange(0, i + 1), pid) by {
                            assert(pid_present(entries@.subrange(0, i + 1), pid)
                                == (pid_present(entries@.subrange(0, i as int), pid)
                                    || contributes_pid(entries@[i as int], pid)));
                            assert(contributes_pid(entries@[i as int], pid) == (pid == 0));
                        }
                    }
                }
            },
        }
        i += 1;
    }
    proof {
        assert(entries@.subrange(0, entries@.len() as int) =~= entries@);
    }
    r
}

/// Whether some bucket row carries this process.
pub open spec fn rows_have_pid(rows: Seq<MonitoredProcess>, pid: u32) -> bool {
    exists|i: int| 0 <= i < rows.len() && rows[i].pid == pid
}

/// A bucket whose counters are exactly the totals of the flows
/// attributed to its process.
pub open spec fn process_row_exact(row: MonitoredProcess, s: Seq<(FlowKey, FlowStats)>)
    -> bool {
    (
        row.total_received_bytes as int,
        row.total_received_packets as int,
        row.total_sent_bytes as int,
        row.total_sent_packets as int,
    ) == totals_for_pid(s, row.pid)
}

/// Roll the table up by process: one bucket per process some flow is
/// attributed to, carrying for each bucket the sums of received and
/// transmitted counters over exactly the flows whose owner set holds
/// its process; flows without an owner fall to the sentinel bucket
/// zero. Fails only when an exact sum exceeds what a bucket can hold.
pub fn rollup_by_process(entries: &Vec<(FlowKey, FlowStats)>)
    -> (r: Result<Vec<MonitoredProcess>, CoreError>)
    ensures
        r is Ok <==> !(exists|pid: u32| pid_present(entries@, pid)
            && totals_overflow(totals_for_pid(entries@, pid))),
        r matches Err(e) ==> e == CoreError::Internal,
        r matches Ok(rows) ==> forall|a: int, b: int| 0 <= a < b < rows@.len()
            ==> (#[trigger] rows@[a]).pid != (#[trigger] rows@[b]).pid,
        r matches Ok(rows) ==> forall|i: int| 0 <= i < rows@.len()
            ==> process_row_exact(#[trigger] rows@[i], entries@),
        r matches Ok(rows) ==> forall|pid: u32| #[trigger] pid_present(entries@, pid)
            <==> rows_have_pid(rows@, pid),
{
    let pids = collect_pids(entries);
    let mut rows: Vec<MonitoredProcess> = Vec::new();
    let mut i: usize = 0;
    while i < pids.len()
        invariant
            i <= pids@.len(),
            forall|a: int, b: int| 0 <= a < b < pids@.len() ==> pids@[a] != pids@[b],
            forall|pid: u32| pids@.contains(pid) <==> pid_present(entries@, pid),
            rows@.len() == i,
            forall|j: int| 0 <= j < i ==> (#[trigger] rows@[j]).pid == pids@[j],
            forall|j: int| 0 <= j < i ==> process_row_exact(#[trigger] rows@[j], entries@),
        decreases pids@.len() - i,
    {
        let pid = pids[i];
        match scan_totals_pid(entries, pid) {
            Some(t) => {
                rows.push(MonitoredProcess {
                    pid,
                    total_received_bytes: t.0,
                    total_received_packets: t.1,
                    total_sent_bytes: t.2,
                    total_sent_packets: t.3,
                });
            },
            None => {
                proof {
                    assert(pids@.contains(pids@[i as int]));
                    assert(pid_present(entries@, pid)
                        && totals_overflow(totals_for_pid(entries@, pid)));
                }
                return Err(CoreError::Internal);
            },
        }
        i += 1;
    }
    proof {
        assert forall|pid: u32| pid_present(entries@, pid)
            implies rows_have_pid(rows@, pid) by {
            assert(pids@.contains(pid));
            let w = choose|w: int| 0 <= w < pids@.len() && pids@[w] == pid;
            assert(rows@[w].pid == pid);
        }
        assert forall|pid: u32| rows_have_pid(rows@, pid)
            implies pid_present(entries@, pid) by {
            let w = choose|w: int| 0 <= w < rows@.len() && rows@[w].pid == pid;
            assert(pids@[w] == pid);
            assert(pids@.contains(pid));
        }
        assert forall|pid: u32| pid_present(entries@, pid)
            implies !totals_overflow(totals_for_pid(entries@, pid)) by {
            assert(pids@.contains(pid));
            let w = choose|w: int| 0 <= w < pids@.len() && pids@[w] == pid;
            assert(process_row_exact(rows@[w], entries@));
            lemma_totals_for_pid_nonneg(entries@, pid);
        }
    }
    Ok(rows)
}

/// Whether a flow is attributed to this local port: an outgoing flow
/// by its source port, an incoming one by its destination port, one of
/// unknown direction by both.
pub open spec fn contributes_port(e: (FlowKey, FlowStats), port: u16) -> bool {
    match e.1.direction {
        crate::flow::TrafficDirection::Outgoing => e.0.src_port == port,
        crate::flow::TrafficDirection::Incoming => e.0.dst_port == port,
        crate::flow::TrafficDirection::Unknown => e.0.src_port == port
            || e.0.dst_port == port,
    }
}

/// The counters of all flows attributed to this port, added up.
pub open spec fn totals_for_port(s: Seq<(FlowKey, FlowStats)>, port: u16)
    -> (int, int, int, int)
    decreases s.len(),
{
    if s.len() == 0 {
        (0, 0, 0, 0)
    } else {
        let rest = totals_for_port(s.drop_last(), port);
        if contributes_port(s.last(), port) {
            add4(rest, flow_contribution(s.last()))
        } else {
            rest
        }
    }
}

/// Whether any flow of the table is attributed to this port.
pub open spec fn port_present(s: Seq<(FlowKey, FlowStats)>, port: u16) -> bool
    decreases s.len(),
{
    if s.len() == 0 {
        false
    } else {
        port_present(s.drop_last(), port) || contributes_port(s.last(), port)
    }
}

pub proof fn lemma_totals_for_port_nonneg(s: Seq<(FlowKey, FlowStats)>, port: u16)
    ensures
        totals_for_port(s, port).0 >= 0,
        totals_for_port(s, port).1 >= 0,
        totals_for_port(s, port).2 >= 0,
        totals_for_port(s, port).3 >= 0,
    decreases s.len(),
{
    if s.len() > 0 {
        lemma_totals_for_port_nonneg(s.drop_last(), port);
    }
}

pub proof fn lemma_totals_for_port_prefix(s: Seq<(FlowKey, FlowStats)>, port: u16, i: int)
    requires
        0 <= i <= s.len(),
    ensures
        totals_for_port(s.subrange(0, i), port).0 <= totals_for_port(s, port).0,
        totals_for_port(s.subrange(0, i), port).1 <= totals_for_port(s, port).1,
        totals_for_port(s.subrange(0, i), port).2 <= totals_for_port(s, port).2,
        totals_for_port(s.subrange(0, i), port).3 <= totals_for_port(s, port).3,
    decreases s.len() - i,
{
    if i == s.len() {
        assert(s.subrange(0, i) =~= s);
    } else {
        assert(s.subrange(0, i + 1).drop_last() =~= s.subrange(0, i));
        assert(s.subrange(0, i + 1).last() == s[i]);
        lemma_totals_for_port_prefix(s, port, i + 1);
        lemma_totals_for_port_nonneg(s.subrange(0, i), port);
    }
}

fn vec_contains_u16(v: &Vec<u16>, x: u16) -> (r: bool)
    ensures
        r == v@.contains(x),
{
    let mut i: usize = 0;
    while i < v.len()
        invariant
            i <= v@.len(),
            forall|j: int| 0 <= j < i ==> v@[j] != x,
        decreases v@.len() - i,
    {
        if v[i] == x {
            return true;
        }
        i += 1;
    }
    false
}

/// A sequence of ports extended by one contains exactly the old ports
/// and the new one.
proof fn lemma_push_contains_u16(s: Seq<u16>, x: u16, p: u16)
    ensures
        s.push(x).contains(p) == (s.contains(p) || p == x),
{
    if s.contains(p) {
        let k = choose|k: int| 0 <= k < s.len() && s[k] == p;
        assert(s.push(x)[k] == p);
    }
    if p == x {
        assert(s.push(x)[s.len() as int] == p);
    }
    if s.push(x).contains(p) && p != x {
        let k = choose|k: int| 0 <= k < s.push(x).len() && s.push(x)[k] == p;
        assert(k < s.len());
        assert(s[k] == p);
    }
}

/// Whether this flow is attributed to this port; see `contributes_port`.
fn flow_contributes_port(e: &(FlowKey, FlowStats), port: u16) -> (r: bool)
    ensures
        r == contributes_port(*e, port),
{
    match e.1.direction {
        crate::flow::TrafficDirection::Outgoing => e.0.src_port == port,
        crate::flow::TrafficDirection::Incoming => e.0.dst_port == port,
        crate::flow::TrafficDirection::Unknown => e.0.src_port == port
            || e.0.dst_port == port,
    }
}

/// Add up the counters of every flow attributed to this port. `None`
/// exactly when the exact sum exceeds what the bucket can hold.
fn scan_totals_port(entries: &Vec<(FlowKey, FlowStats)>, port: u16)
    -> (r: Option<(u128, u128, u128, u128)>)
    ensures
        match r {
            Some(t) => (t.0 as int, t.1 as int, t.2 as int, t.3 as int)
                == totals_for_port(entries@, port),
            None => totals_overflow(totals_for_port(entries@, port)),
        },
        r is Some <==> !totals_overflow(totals_for_port(entries@, port)),
{
    let mut rb: u128 = 0;
    let mut rp: u128 = 0;
    let mut tb: u128 = 0;
    let mut tp: u128 = 0;
    let mut i: usize = 0;
    while i < entries.len()
        invariant
            i <= entries@.len(),
            (rb as int, rp as int, tb as int, tp as int)
                == totals_for_port(entries@.subrange(0, i as int), port),
        decreases entries@.len() - i,
    {
        proof {
            assert(entries@.subrange(0, i + 1).drop_last() =~= entries@.subrange(0, i as int));
            assert(entries@.subrange(0, i + 1).last() == entries@[i as int]);
        }
        if flow_contributes_port(&entries[i], port) {
            let st = &entries[i].1;
            if rb > u128::MAX - st.received_bytes || rp > u128::MAX - st.received_packets
                || tb > u128::MAX - st.transmitted_bytes
                || tp > u128::MAX - st.transmitted_packets {
                proof {
                    lemma_totals_for_port_prefix(entries@, port, i + 1);
                    lemma_totals_for_port_nonneg(entries@.subrange(0, i as int), port);
                }
                return None;
            }
            rb = rb + st.received_bytes;
            rp = rp + st.received_packets;
            tb = tb + st.transmitted_bytes;
            tp = tp + st.transmitted_packets;
        }
        i += 1;
    }
    proof {
        assert(entries@.subrange(0, entries@.len() as int) =~= entries@);
    }
    Some((rb, rp, tb, tp))
}

/// Push a port on the list if it is not yet there.
fn push_port_once(r: &mut Vec<u16>, port: u16)
    requires
        forall|a: int, b: int| 0 <= a < b < old(r)@.len() ==> old(r)@[a] != old(r)@[b],
    ensures
        forall|a: int, b: int| 0 <= a < b < final(r)@.len() ==> final(r)@[a] != final(r)@[b],
        forall|p: u16| final(r)@.contains(p) == (old(r)@.contains(p) || p == port),
{
    if !vec_contains_u16(r, port) {
        let ghost prev = r@;
        r.push(port);
        proof {
            assert forall|a: int, b: int| 0 <= a < b < r@.len() implies r@[a] != r@[b] by {
                if b == prev.len() {
                    assert(prev.contains(prev[a]));
                }
            }
            assert forall|p: u16| r@.contains(p) == (prev.contains(p) || p == port) by {
                lemma_push_contains_u16(prev, port, p);
            }
        }
    }
}

/// Every local port some flow is attributed to, each once.
fn collect_ports(entries: &Vec<(FlowKey, FlowStats)>) -> (r: Vec<u16>)
    ensures
        forall|a: int, b: int| 0 <= a < b < r@.len() ==> r@[a] != r@[b],
        forall|port: u16| r@.contains(port) <==> port_present(entries@, port),
{
    let mut r: Vec<u16> = Vec::new();
    let mut i: usize = 0;
    while i < entries.len()
        invariant
            i <= entries@.len(),
            forall|a: int, b: int| 0 <= a < b < r@.len() ==> r@[a] != r@[b],
            forall|port: u16| r@.contains(port)
                == port_present(entries@.subrange(0, i as int), port),
        decreases entries@.len() - i,
    {
        proof {
            assert(entries@.subrange(0, i + 1).drop_last() =~= entries@.subrange(0, i as int));
            assert(entries@.subrange(0, i + 1).last() == entries@[i as int]);
        }
        let ghost before = r@;
        match entries[i].1.direction {
            crate::flow::TrafficDirection::Outgoing => {
                push_port_once(&mut r, entries[i].0.src_port);
            },
            crate::flow::TrafficDirection::Incoming => {
                push_port_once(&mut r, entries[i].0.dst_port);
            },
            crate::flow::TrafficDirection::Unknown => {
                push_port_once(&mut r, entries[i].0.src_port);
                push_port_once(&mut r, entries[i].0.dst_port);
            },
        }
        proof {
            assert forall|port: u16| r@.contains(port)
                == port_present(entries@.subrange(0, i + 1), port) by {
                assert(port_present(entries@.subrange(0, i + 1), port)
                    == (port_present(entries@.subrange(0, i as int), port)
                        || contributes_port(entries@[i as int], port)));
            }
        }
        i += 1;
    }
    proof {
        assert(entries@.subrange(0, entries@.len() as int) =~= entries@);
    }
    r
}

/// Whether some bucket row carries this port.
pub open spec fn rows_have_port(rows: Seq<MonitoredPort>, port: u16) -> bool {
    exists|i: int| 0 <= i < rows.len() && rows[i].port == port
}

/// A bucket whose counters are exactly the totals of the flows
/// attributed to its port.
pub open spec fn port_row_exact(row: MonitoredPort, s: Seq<(FlowKey, FlowStats)>) -> bool {
    (
        row.total_received_bytes as int,
        row.total_received_packets as int,
        row.total_sent_bytes as int,
        row.total_sent_packets as int,
    ) == totals_for_port(s, row.port)
}

/// Roll the table up by local port: outgoing flows count under their
/// source port, incoming ones under their destination port, flows of
/// unknown direction under both. Fails only when an exact sum exceeds
/// what a bucket can hold.
pub fn rollup_by_port(entries: &Vec<(FlowKey, FlowStats)>)
    -> (r: Result<Vec<MonitoredPort>, CoreError>)
    ensures
        r is Ok <==> !(exists|port: u16| port_present(entries@, port)
            && totals_overflow(totals_for_port(entries@, port))),
        r matches Err(e) ==> e == CoreError::Internal,
        r matches Ok(rows) ==> forall|a: int, b: int| 0 <= a < b < rows@.len()
            ==> (#[trigger] rows@[a]).port != (#[trigger] rows@[b]).port,
        r matches Ok(rows) ==> forall|i: int| 0 <= i < rows@.len()
            ==> port_row_exact(#[trigger] rows@[i], entries@),
        r matches Ok(rows) ==> forall|port: u16| #[trigger] port_present(entries@, port)
            <==> rows_have_port(rows@, port),
{
    let ports = collect_ports(entries);
    let mut rows: Vec<MonitoredPort> = Vec::new();
    let mut i: usize = 0;
    while i < ports.len()
        invariant
            i <= ports@.len(),
            forall|a: int, b: int| 0 <= a < b < ports@.len() ==> ports@[a] != ports@[b],
            forall|port: u16| ports@.contains(port) <==> port_present(entries@, port),
            rows@.len() == i,
            forall|j: int| 0 <= j < i ==> (#[trigger] rows@[j]).port == ports@[j],
            forall|j: int| 0 <= j < i ==> port_row_exact(#[trigger] rows@[j], entries@),
        decreases ports@.len() - i,
    {
        let port = ports[i];
        match scan_totals_port(entries, port) {
            Some(t) => {
                rows.push(MonitoredPort {
                    port,
                    total_received_bytes: t.0,
                    total_received_packets: t.1,
                    total_sent_bytes: t.2,
                    total_sent_packets: t.3,
                });
            },
            None => {
                proof {
                    assert(ports@.contains(ports@[i as int]));
                    assert(port_present(entries@, port)
                        && totals_overflow(totals_for_port(entries@, port)));
                }
                return Err(CoreError::Internal);
            },
        }
        i += 1;
    }
    proof {
        assert forall|port: u16| port_present(entries@, port)
            implies rows_have_port(rows@, port) by {
            assert(ports@.contains(port));
            let w = choose|w: int| 0 <= w < ports@.len() && ports@[w] == port;
            assert(rows@[w].port == port);
        }
        assert forall|port: u16| rows_have_port(rows@, port)
            implies port_present(entries@, port) by {
            let w = choose|w: int| 0 <= w < rows@.len() && rows@[w].port == port;
            assert(ports@[w] == port);
            assert(ports@.contains(port));
        }
        assert forall|port: u16| port_present(entries@, port)
            implies !totals_overflow(totals_for_port(entries@, port)) by {
            assert(ports@.contains(port));
            let w = choose|w: int| 0 <= w < ports@.len() && ports@[w] == port;
            assert(port_row_exact(rows@[w], entries@));
            lemma_totals_for_port_nonneg(entries@, port);
        }
    }
    Ok(rows)
}

/// Whether a flow is attributed to this user; flows with no owner fall
/// to the sentinel user, the largest user id.
pub open spec fn contributes_uid(e: (FlowKey, FlowStats), uid: u32) -> bool {
    match e.1.owner {
        Some(o) => o.uid == uid,
        None => uid == u32::MAX,
    }
}

/// The counters of all flows attributed to this user, added up.
pub open spec fn totals_for_uid(s: Seq<(FlowKey, FlowStats)>, uid: u32)
    -> (int, int, int, int)
    decreases s.len(),
{
    if s.len() == 0 {
        (0, 0, 0, 0)
    } else {
        let rest = totals_for_uid(s.drop_last(), uid);
        if contributes_uid(s.last(), uid) {
            add4(rest, flow_contribution(s.last()))
        } else {
            rest
        }
    }
}

/// Whether any flow of the table is attributed to this user.
pub open spec fn uid_present(s: Seq<(FlowKey, FlowStats)>, uid: u32) -> bool
    decreases s.len(),
{
    if s.len() == 0 {
        false
    } else {
        uid_present(s.drop_last(), uid) || contributes_uid(s.last(), uid)
    }
}

pub proof fn lemma_totals_for_uid_nonneg(s: Seq<(FlowKey, FlowStats)>, uid: u32)
    ensures
        totals_for_uid(s, uid).0 >= 0,
        totals_for_uid(s, uid).1 >= 0,
        totals_for_uid(s, uid).2 >= 0,
        totals_for_uid(s, uid).3 >= 0,
    decreases s.len(),
{
    if s.len() > 0 {
        lemma_totals_for_uid_nonneg(s.drop_last(), uid);
    }
}

pub proof fn lemma_totals_for_uid_prefix(s: Seq<(FlowKey, FlowStats)>, uid: u32, i: int)
    requires
        0 <= i <= s.len(),
    ensures
        totals_for_uid(s.subrange(0, i), uid).0 <= totals_for_uid(s, uid).0,
        totals_for_uid(s.subrange(0, i), uid).1 <= totals_for_uid(s, uid).1,
        totals_for_uid(s.subrange(0, i), uid).2 <= totals_for_uid(s, uid).2,
        totals_for_uid(s.subrange(0, i), uid).3 <= totals_for_uid(s, uid).3,
    decreases s.len() - i,
{
    if i == s.len() {
        assert(s.subrange(0, i) =~= s);
    } else {
        assert(s.subrange(0, i + 1).drop_last() =~= s.subrange(0, i));
        assert(s.subrange(0, i + 1).last() == s[i]);
        lemma_totals_for_uid_prefix(s, uid, i + 1);
        lemma_totals_for_uid_nonneg(s.subrange(0, i), uid);
    }
}

/// Whether this flow is attributed to this user; see `contributes_uid`.
fn flow_contributes_uid(e: &(FlowKey, FlowStats), uid: u32) -> (r: bool)
    ensures
        r == contributes_uid(*e, uid),
{
    match &e.1.owner {
        Some(o) => o.uid == uid,
        None => uid == u32::MAX,
    }
}

/// Add up the counters of every flow attributed to this user. `None`
/// exactly when the exact sum exceeds what the bucket can hold.
fn scan_totals_uid(entries: &Vec<(FlowKey, FlowStats)>, uid: u32)
    -> (r: Option<(u128, u128, u128, u128)>)
    ensures
        match r {
            Some(t) => (t.0 as int, t.1 as int, t.2 as int, t.3 as int)
                == totals_for_uid(entries@, uid),
            None => totals_overflow(totals_for_uid(entries@, uid)),
        },
        r is Some <==> !totals_overflow(totals_for_uid(entries@, uid)),
{
    let mut rb: u128 = 0;
    let mut rp: u128 = 0;
    let mut tb: u128 = 0;
    let mut tp: u128 = 0;
    let mut i: usize = 0;
    while i < entries.len()
        invariant
            i <= entries@.len(),
            (rb as int, rp as int, tb as int, tp as int)
                == totals_for_uid(entries@.subrange(0, i as int), uid),
        decreases entries@.len() - i,
    {
        proof {
            assert(entries@.subrange(0, i + 1).drop_last() =~= entries@.subrange(0, i as int));
            assert(entries@.subrange(0, i + 1).last() == entries@[i as int]);
        }
        if flow_contributes_uid(&entries[i], uid) {
            let st = &entries[i].1;
            if rb > u128::MAX - st.received_bytes || rp > u128::MAX - st.received_packets
                || tb > u128::MAX - st.transmitted_bytes
                || tp > u128::MAX - st.transmitted_packets {
                proof {
                    lemma_totals_for_uid_prefix(entries@, uid, i + 1);
                    lemma_totals_for_uid_nonneg(entries@.subrange(0, i as int), uid);
                }
                return None;
            }
            rb = rb + st.received_bytes;
            rp = rp + st.received_packets;
            tb = tb + st.transmitted_bytes;
            tp = tp + st.transmitted_packets;
        }
        i += 1;
    }
    proof {
        assert(entries@.subrange(0, entries@.len() as int) =~= entries@);
    }
    Some((rb, rp, tb, tp))
}

/// Every user some flow is attributed to, each once; ownerless flows
/// put the sentinel user on the list.
fn collect_uids(entries: &Vec<(FlowKey, FlowStats)>) -> (r: Vec<u32>)
    ensures
        forall|a: int, b: int| 0 <= a < b < r@.len() ==> r@[a] != r@[b],
        forall|uid: u32| r@.contains(uid) <==> uid_present(entries@, uid),
{
    let mut r: Vec<u32> = Vec::new();
    let mut i: usize = 0;
    while i < entries.len()
        invariant
            i <= entries@.len(),
            forall|a: int, b: int| 0 <= a < b < r@.len() ==> r@[a] != r@[b],
            forall|uid: u32| r@.contains(uid)
                == uid_present(entries@.subrange(0, i as int), uid),
        decreases entries@.len() - i,
    {
        proof {
            assert(entries@.subrange(0, i + 1).drop_last() =~= entries@.subrange(0, i as int));
            assert(entries@.subrange(0, i + 1).last() == entries@[i as int]);
        }
        let key: u32 = match &entries[i].1.owner {
            Some(o) => o.uid,
            None => u32::MAX,
        };
        if !vec_contains_u32(&r, key) {
            let ghost prev = r@;
            r.push(key);
            proof {
                assert forall|a: int, b: int| 0 <= a < b < r@.len() implies r@[a] != r@[b] by {
                    if b == prev.len() {
                        assert(prev.contains(prev[a]));
                    }
                }
                assert forall|uid: u32| r@.contains(uid)
                    == uid_present(entries@.subrange(0, i + 1), uid) by {
                    crate::flow::lemma_push_contains(prev, key, uid);
                    assert(prev.contains(uid)
                        == uid_present(entries@.subrange(0, i as int), uid));
                    assert(uid_present(entries@.subrange(0, i + 1), uid)
                        == (uid_present(entries@.subrange(0, i as int), uid)
                            || contributes_uid(entries@[i as int], uid)));
                    assert(contributes_uid(entries@[i as int], uid) == (uid == key));
                }
            }
        } else {
            proof {
                assert forall|uid: u32| r@.contains(uid)
                    == uid_present(entries@.subrange(0, i + 1), uid) by {
                    assert(uid_present(entries@.subrange(0, i + 1), uid)
                        == (uid_present(entries@.subrange(0, i as int), uid)
                            || contributes_uid(entries@[i as int], uid)));
                    assert(contributes_uid(entries@[i as int], uid) == (uid == key));
                }
            }
        }
        i += 1;
    }
    proof {
        assert(entries@.subrange(0, entries@.len() as int) =~= entries@);
    }
    r
}

/// Whether some bucket row carries this user.
pub open spec fn rows_have_uid(rows: Seq<MonitoredUser>, uid: u32) -> bool {
    exists|i: int| 0 <= i < rows.len() && rows[i].uid == uid
}

/// A bucket whose counters are exactly the totals of the flows
/// attributed to its user.
pub open spec fn user_row_exact(row: MonitoredUser, s: Seq<(FlowKey, FlowStats)>) -> bool {
    (
        row.total_received_bytes as int,
        row.total_received_packets as int,
        row.total_sent_bytes as int,
        row.total_sent_packets as int,
    ) == totals_for_uid(s, row.uid)
}

/// Roll the table up by user: one bucket per owning user; flows
/// without an owner fall to the sentinel user. Fails only when an
/// exact sum exceeds what a bucket can hold.
pub fn rollup_by_user(entries: &Vec<(FlowKey, FlowStats)>)
    -> (r: Result<Vec<MonitoredUser>, CoreError>)
    ensures
        r is Ok <==> !(exists|uid: u32| uid_present(entries@, uid)
            && totals_overflow(totals_for_uid(entries@, uid))),
        r matches Err(e) ==> e == CoreError::Internal,
        r matches Ok(rows) ==> forall|a: int, b: int| 0 <= a < b < rows@.len()
            ==> (#[trigger] rows@[a]).uid != (#[trigger] rows@[b]).uid,
        r matches Ok(rows) ==> forall|i: int| 0 <= i < rows@.len()
            ==> user_row_exact(#[trigger] rows@[i], entries@),
        r matches Ok(rows) ==> forall|uid: u32| #[trigger] uid_present(entries@, uid)
            <==> rows_have_uid(rows@, uid),
{
    let uids = collect_uids(entries);
    let mut rows: Vec<MonitoredUser> = Vec::new();
    let mut i: usize = 0;
    while i < uids.len()
        invariant
            i <= uids@.len(),
            forall|a: int, b: int| 0 <= a < b < uids@.len() ==> uids@[a] != uids@[b],
            forall|uid: u32| uids@.contains(uid) <==> uid_present(entries@, uid),
            rows@.len() == i,
            forall|j: int| 0 <= j < i ==> (#[trigger] rows@[j]).uid == uids@[j],
            forall|j: int| 0 <= j < i ==> user_row_exact(#[trigger] rows@[j], entries@),
        decreases uids@.len() - i,
    {
        let uid = uids[i];
        match scan_totals_uid(entries, uid) {
            Some(t) => {
                rows.push(MonitoredUser {
                    uid,
                    total_received_bytes: t.0,
                    total_received_packets: t.1,
                    total_sent_bytes: t.2,
                    total_sent_packets: t.3,
                });
            },
            None => {
                proof {
                    assert(uids@.contains(uids@[i as int]));
                    assert(uid_present(entries@, uid)
                        && totals_overflow(totals_for_uid(entries@, uid)));
                }
                return Err(CoreError::Internal);
            },
        }
        i += 1;
    }
    proof {
        assert forall|uid: u32| uid_present(entries@, uid)
            implies rows_have_uid(rows@, uid) by {
            assert(uids@.contains(uid));
            let w = choose|w: int| 0 <= w < uids@.len() && uids@[w] == uid;
            assert(rows@[w].uid == uid);
        }
        assert forall|uid: u32| rows_have_uid(rows@, uid)
            implies uid_present(entries@, uid) by {
            let w = choose|w: int| 0 <= w < rows@.len() && rows@[w].uid == uid;
            assert(uids@[w] == uid);
            assert(uids@.contains(uid));
        }
        assert forall|uid: u32| uid_present(entries@, uid)
            implies !totals_overflow(totals_for_uid(entries@, uid)) by {
            assert(uids@.contains(uid));
            let w = choose|w: int| 0 <= w < uids@.len() && uids@[w] == uid;
            assert(user_row_exact(rows@[w], entries@));
            lemma_totals_for_uid_nonneg(entries@, uid);
        }
    }
    Ok(rows)
}

/// Resequencing process buckets (as a sort does) keeps them the same
/// buckets: per-bucket exactness, pairwise-distinct processes, and the
/// processes present all carry over.
pub proof fn lemma_process_rows_permuted(a: Seq<MonitoredProcess>, b: Seq<MonitoredProcess>,
    entries: Seq<(FlowKey, FlowStats)>)
    requires
        a.to_multiset() == b.to_multiset(),
        forall|i: int| 0 <= i < b.len() ==> process_row_exact(#[trigger] b[i], entries),
        forall|i: int, j: int| 0 <= i < j < b.len()
            ==> (#[trigger] b[i]).pid != (#[trigger] b[j]).pid,
    ensures
        forall|i: int| 0 <= i < a.len() ==> process_row_exact(#[trigger] a[i], entries),
        forall|i: int, j: int| 0 <= i < j < a.len()
            ==> (#[trigger] a[i]).pid != (#[trigger] a[j]).pid,
        forall|pid: u32| rows_have_pid(a, pid) == rows_have_pid(b, pid),
{
    broadcast use vstd::seq_lib::group_to_multiset_ensures;

    assert forall|i: int| 0 <= i < a.len()
        implies process_row_exact(#[trigger] a[i], entries) by {
        assert(a.contains(a[i]));
        assert(b.to_multiset().count(a[i]) > 0);
        assert(b.contains(a[i]));
        let w = choose|w: int| 0 <= w < b.len() && b[w] == a[i];
        assert(process_row_exact(b[w], entries));
    }
    assert(b.no_duplicates()) by {
        assert forall|i: int, j: int|
            0 <= i < b.len() && 0 <= j < b.len() && i != j implies b[i] != b[j] by {
            if i < j {
                assert(b[i].pid != b[j].pid);
            } else {
                assert(b[j].pid != b[i].pid);
            }
        }
    }
    b.lemma_multiset_has_no_duplicates();
    a.lemma_multiset_has_no_duplicates_conv();
    assert forall|i: int, j: int| 0 <= i < j < a.len()
        implies (#[trigger] a[i]).pid != (#[trigger] a[j]).pid by {
        assert(a[i] != a[j]);
        assert(a.contains(a[i]));
        assert(a.contains(a[j]));
        assert(b.to_multiset().count(a[i]) > 0);
        assert(b.to_multiset().count(a[j]) > 0);
        assert(b.contains(a[i]));
        assert(b.contains(a[j]));
        let wi = choose|w: int| 0 <= w < b.len() && b[w] == a[i];
        let wj = choose|w: int| 0 <= w < b.len() && b[w] == a[j];
        if wi < wj {
            assert(b[wi].pid != b[wj].pid);
        }
        if wj < wi {
            assert(b[wj].pid != b[wi].pid);
        }
    }
    assert forall|pid: u32| rows_have_pid(a, pid) == rows_have_pid(b, pid) by {
        if rows_have_pid(a, pid) {
            let w = choose|w: int| 0 <= w < a.len() && a[w].pid == pid;
            assert(a.contains(a[w]));
            assert(b.to_multiset().count(a[w]) > 0);
            assert(b.contains(a[w]));
            let v = choose|v: int| 0 <= v < b.len() && b[v] == a[w];
            assert(b[v].pid == pid);
            assert(rows_have_pid(b, pid));
        }
        if rows_have_pid(b, pid) {
            let w = choose|w: int| 0 <= w < b.len() && b[w].pid == pid;
            assert(b.contains(b[w]));
            assert(a.to_multiset().count(b[w]) > 0);
            assert(a.contains(b[w]));
            let v = choose|v: int| 0 <= v < a.len() && a[v] == b[w];
            assert(a[v].pid == pid);
            assert(rows_have_pid(a, pid));
        }
    }
}

/// Resequencing port buckets keeps them the same buckets.
pub proof fn lemma_port_rows_permuted(a: Seq<MonitoredPort>, b: Seq<MonitoredPort>,
    entries: Seq<(FlowKey, FlowStats)>)
    requires
        a.to_multiset() == b.to_multiset(),
        forall|i: int| 0 <= i < b.len() ==> port_row_exact(#[trigger] b[i], entries),
        forall|i: int, j: int| 0 <= i < j < b.len()
            ==> (#[trigger] b[i]).port != (#[trigger] b[j]).port,
    ensures
        forall|i: int| 0 <= i < a.len() ==> port_row_exact(#[trigger] a[i], entries),
        forall|i: int, j: int| 0 <= i < j < a.len()
            ==> (#[trigger] a[i]).port != (#[trigger] a[j]).port,
        forall|port: u16| rows_have_port(a, port) == rows_have_port(b, port),
{
    broadcast use vstd::seq_lib::group_to_multiset_ensures;

    assert forall|i: int| 0 <= i < a.len()
        implies port_row_exact(#[trigger] a[i], entries) by {
        assert(a.contains(a[i]));
        assert(b.to_multiset().count(a[i]) > 0);
        assert(b.contains(a[i]));
        let w = choose|w: int| 0 <= w < b.len() && b[w] == a[i];
        assert(port_row_exact(b[w], entries));
    }
    assert(b.no_duplicates()) by {
        assert forall|i: int, j: int|
            0 <= i < b.len() && 0 <= j < b.len() && i != j implies b[i] != b[j] by {
            if i < j {
                assert(b[i].port != b[j].port);
            } else {
                assert(b[j].port != b[i].port);
            }
        }
    }
    b.lemma_multiset_has_no_duplicates();
    a.lemma_multiset_has_no_duplicates_conv();
    assert forall|i: int, j: int| 0 <= i < j < a.len()
        implies (#[trigger] a[i]).port != (#[trigger] a[j]).port by {
        assert(a[i] != a[j]);
        assert(a.contains(a[i]));
        assert(a.contains(a[j]));
        assert(b.to_multiset().count(a[i]) > 0);
        assert(b.to_multiset().count(a[j]) > 0);
        assert(b.contains(a[i]));
        assert(b.contains(a[j]));
        let wi = choose|w: int| 0 <= w < b.len() && b[w] == a[i];
        let wj = choose|w: int| 0 <= w < b.len() && b[w] == a[j];
        if wi < wj {
            assert(b[wi].port != b[wj].port);
        }
        if wj < wi {
            assert(b[wj].port != b[wi].port);
        }
    }
    assert forall|port: u16| rows_have_port(a, port) == rows_have_port(b, port) by {
        if rows_have_port(a, port) {
            let w = choose|w: int| 0 <= w < a.len() && a[w].port == port;
            assert(a.contains(a[w]));
            assert(b.to_multiset().count(a[w]) > 0);
            assert(b.contains(a[w]));
            let v = choose|v: int| 0 <= v < b.len() && b[v] == a[w];
            assert(b[v].port == port);
            assert(rows_have_port(b, port));
        }
        if rows_have_port(b, port) {
            let w = choose|w: int| 0 <= w < b.len() && b[w].port == port;
            assert(b.contains(b[w]));
            assert(a.to_multiset().count(b[w]) > 0);
            assert(a.contains(b[w]));
            let v = choose|v: int| 0 <= v < a.len() && a[v] == b[w];
            assert(a[v].port == port);
            assert(rows_have_port(a, port));
        }
    }
}

/// Resequencing user buckets keeps them the same buckets.
pub proof fn lemma_user_rows_permuted(a: Seq<MonitoredUser>, b: Seq<MonitoredUser>,
    entries: Seq<(FlowKey, FlowStats)>)
    requires
        a.to_multiset() == b.to_multiset(),
        forall|i: int| 0 <= i < b.len() ==> user_row_exact(#[trigger] b[i], entries),
        forall|i: int, j: int| 0 <= i < j < b.len()
            ==> (#[trigger] b[i]).uid != (#[trigger] b[j]).uid,
    ensures
        forall|i: int| 0 <= i < a.len() ==> user_row_exact(#[trigger] a[i], entries),
        forall|i: int, j: int| 0 <= i < j < a.len()
            ==> (#[trigger] a[i]).uid != (#[trigger] a[j]).uid,
        forall|uid: u32| rows_have_uid(a, uid) == rows_have_uid(b, uid),
{
    broadcast use vstd::seq_lib::group_to_multiset_ensures;

    assert forall|i: int| 0 <= i < a.len()
        implies user_row_exact(#[trigger] a[i], entries) by {
        assert(a.contains(a[i]));
        assert(b.to_multiset().count(a[i]) > 0);
        assert(b.contains(a[i]));
        let w = choose|w: int| 0 <= w < b.len() && b[w] == a[i];
        assert(user_row_exact(b[w], entries));
    }
    assert(b.no_duplicates()) by {
        assert forall|i: int, j: int|
            0 <= i < b.len() && 0 <= j < b.len() && i != j implies b[i] != b[j] by {
            if i < j {
                assert(b[i].uid != b[j].uid);
            } else {
                assert(b[j].uid != b[i].uid);
            }
        }
    }
    b.lemma_multiset_has_no_duplicates();
    a.lemma_multiset_has_no_duplicates_conv();
    assert forall|i: int, j: int| 0 <= i < j < a.len()
        implies (#[trigger] a[i]).uid != (#[trigger] a[j]).uid by {
        assert(a[i] != a[j]);
        assert(a.contains(a[i]));
        assert(a.contains(a[j]));
        assert(b.to_multiset().count(a[i]) > 0);
        assert(b.to_multiset().count(a[j]) > 0);
        assert(b.contains(a[i]));
        assert(b.contains(a[j]));
        let wi = choose|w: int| 0 <= w < b.len() && b[w] == a[i];
        let wj = choose|w: int| 0 <= w < b.len() && b[w] == a[j];
        if wi < wj {
            assert(b[wi].uid != b[wj].uid);
        }
        if wj < wi {
            assert(b[wj].uid != b[wi].uid);
        }
    }
    assert forall|uid: u32| rows_have_uid(a, uid) == rows_have_uid(b, uid) by {
        if rows_have_uid(a, uid) {
            let w = choose|w: int| 0 <= w < a.len() && a[w].uid == uid;
            assert(a.contains(a[w]));
            assert(b.to_multiset().count(a[w]) > 0);
            assert(b.contains(a[w]));
            let v = choose|v: int| 0 <= v < b.len() && b[v] == a[w];
            assert(b[v].uid == uid);
            assert(rows_have_uid(b, uid));
        }
        if rows_have_uid(b, uid) {
            let w = choose|w: int| 0 <= w < b.len() && b[w].uid == uid;
            assert(b.contains(b[w]));
            assert(a.to_multiset().count(b[w]) > 0);
            assert(a.contains(b[w]));
            let v = choose|v: int| 0 <= v < a.len() && a[v] == b[w];
            assert(a[v].uid == uid);
            assert(rows_have_uid(a, uid));
        }
    }
}

} // verus!
