//! Flow records: the immutable five-tuple key and the mutable per-flow
//! aggregate that the flow table keeps for it.

use vstd::prelude::*;

verus! {

/// Transport-layer protocol of an observed packet.
#[derive(Clone, Copy, PartialEq, Eq, Structural, Debug, Hash)]
pub enum TransProtocol {
    TCP,
    UDP,
    ICMP,
    Other,
}

/// An IPv4 or IPv6 address, held as its numeric value in network order
/// (the first octet of the textual form is the most significant byte).
#[derive(Clone, Copy, PartialEq, Eq, Structural, Debug, Hash)]
pub enum IpAddress {
    V4(u32),
    V6(u128),
}

/// The value of a byte string read as one big-endian number.
pub open spec fn be_value(s: Seq<u8>) -> int
    decreases s.len(),
{
    if s.len() == 0 {
        0
    } else {
        be_value(s.drop_last()) * 256 + s.last()
    }
}

/// A big-endian number of n bytes lies below 256 to the n.
pub proof fn lemma_be_value_bound(s: Seq<u8>)
    ensures
        0 <= be_value(s) < vstd::arithmetic::power::pow(256, s.len() as nat),
    decreases s.len(),
{
    vstd::arithmetic::power::lemma_pow_positive(256, s.len() as nat);
    if s.len() > 0 {
        lemma_be_value_bound(s.drop_last());
        assert(vstd::arithmetic::power::pow(256, s.len() as nat)
            == 256 * vstd::arithmetic::power::pow(256, (s.len() - 1) as nat)) by {
            vstd::arithmetic::power::lemma_pow_adds(256, (s.len() - 1) as nat, 1);
            vstd::arithmetic::power::lemma_pow1(256);
        }
    }
}

/// The IPv4 address whose octets these are, most significant first.
pub fn address_v4(octets: [u8; 4]) -> (r: IpAddress)
    ensures
        r == IpAddress::V4(be_value(octets@) as u32),
{
    let v: u32 = (octets[0] as u32) * 0x1000000 + (octets[1] as u32) * 0x10000
        + (octets[2] as u32) * 0x100 + (octets[3] as u32);
    proof {
        let s = octets@;
        let s3 = s.drop_last();
        let s2 = s3.drop_last();
        let s1 = s2.drop_last();
        assert(s1.drop_last() =~= Seq::<u8>::empty());
        assert(be_value(Seq::<u8>::empty()) == 0);
        assert(be_value(s1) == s[0]);
        assert(be_value(s2) == s[0] * 256 + s[1]);
        assert(be_value(s3) == (s[0] * 256 + s[1]) * 256 + s[2]);
        assert(be_value(s) == ((s[0] * 256 + s[1]) * 256 + s[2]) * 256 + s[3]);
    }
    IpAddress::V4(v)
}

/// The IPv6 address whose octets these are, most significant first.
pub fn address_v6(octets: [u8; 16]) -> (r: IpAddress)
    ensures
        r == IpAddress::V6(be_value(octets@) as u128),
{
    let mut v: u128 = 0;
    let mut i: usize = 0;
    proof {
        vstd::arithmetic::power::lemma_pow0(256);
    }
    while i < 16
        invariant
            i <= 16,
            v == be_value(octets@.subrange(0, i as int)),
            v < vstd::arithmetic::power::pow(256, i as nat),
        decreases 16 - i,
    {
        proof {
            assert(octets@.subrange(0, i + 1).drop_last() =~= octets@.subrange(0, i as int));
            assert(octets@.subrange(0, i + 1).last() == octets@[i as int]);
            assert(vstd::arithmetic::power::pow(256, (i + 1) as nat)
                == 256 * vstd::arithmetic::power::pow(256, i as nat)) by {
                vstd::arithmetic::power::lemma_pow_adds(256, i as nat, 1);
                vstd::arithmetic::power::lemma_pow1(256);
            }
            assert(vstd::arithmetic::power::pow(256, 16)
                == 0x100000000000000000000000000000000) by {
                reveal_with_fuel(vstd::arithmetic::power::pow, 17);
            }
            vstd::arithmetic::power::lemma_pow_increases(256, (i + 1) as nat, 16);
        }
        v = v * 256 + (octets[i] as u128);
        i += 1;
    }
    proof {
        assert(octets@.subrange(0, 16) =~= octets@);
    }
    IpAddress::V6(v)
}

/// Direction of a flow relative to the local host.
#[derive(Clone, Copy, PartialEq, Eq, Structural, Debug, Hash)]
pub enum TrafficDirection {
    Incoming,
    Outgoing,
    Unknown,
}

/// The immutable five-tuple that identifies a flow. Equality uses all
/// five fields.
#[derive(Clone, Copy, PartialEq, Eq, Structural, Debug, Hash)]
pub struct FlowKey {
    pub src_addr: IpAddress,
    pub src_port: u16,
    pub dst_addr: IpAddress,
    pub dst_port: u16,
    pub transport: TransProtocol,
}

impl FlowKey {
    /// The same endpoints seen from the opposite side: source and
    /// destination exchanged, transport kept.
    pub open spec fn spec_reversed(self) -> FlowKey {
        FlowKey {
            src_addr: self.dst_addr,
            src_port: self.dst_port,
            dst_addr: self.src_addr,
            dst_port: self.src_port,
            transport: self.transport,
        }
    }

    pub fn reversed(&self) -> (r: FlowKey)
        ensures
            r == self.spec_reversed(),
    {
        FlowKey {
            src_addr: self.dst_addr,
            src_port: self.dst_port,
            dst_addr: self.src_addr,
            dst_port: self.src_port,
            transport: self.transport,
        }
    }
}

/// The set of transport protocols observed on one flow.
#[derive(Clone, Copy, PartialEq, Eq, Structural, Debug)]
pub struct ProtocolSet {
    pub tcp: bool,
    pub udp: bool,
    pub icmp: bool,
    pub other: bool,
}

impl ProtocolSet {
    pub open spec fn spec_contains(self, p: TransProtocol) -> bool {
        match p {
            TransProtocol::TCP => self.tcp,
            TransProtocol::UDP => self.udp,
            TransProtocol::ICMP => self.icmp,
            TransProtocol::Other => self.other,
        }
    }

    pub open spec fn spec_insert(self, p: TransProtocol) -> ProtocolSet {
        match p {
            TransProtocol::TCP => ProtocolSet { tcp: true, ..self },
            TransProtocol::UDP => ProtocolSet { udp: true, ..self },
            TransProtocol::ICMP => ProtocolSet { icmp: true, ..self },
            TransProtocol::Other => ProtocolSet { other: true, ..self },
        }
    }

    pub open spec fn spec_singleton(p: TransProtocol) -> ProtocolSet {
        ProtocolSet { tcp: false, udp: false, icmp: false, other: false }.spec_insert(p)
    }

    pub fn empty() -> (r: ProtocolSet)
        ensures
            r == (ProtocolSet { tcp: false, udp: false, icmp: false, other: false }),
            forall|p: TransProtocol| !r.spec_contains(p),
    {
        ProtocolSet { tcp: false, udp: false, icmp: false, other: false }
    }

    pub fn singleton(p: TransProtocol) -> (r: ProtocolSet)
        ensures
            r == ProtocolSet::spec_singleton(p),
    {
        let mut r = ProtocolSet::empty();
        r.insert(p);
        r
    }

    pub fn insert(&mut self, p: TransProtocol)
        ensures
            *final(self) == old(self).spec_insert(p),
    {
        match p {
            TransProtocol::TCP => self.tcp = true,
            TransProtocol::UDP => self.udp = true,
            TransProtocol::ICMP => self.icmp = true,
            TransProtocol::Other => self.other = true,
        }
    }

    pub fn contains(&self, p: TransProtocol) -> (r: bool)
        ensures
            r == self.spec_contains(p),
    {
        match p {
            TransProtocol::TCP => self.tcp,
            TransProtocol::UDP => self.udp,
            TransProtocol::ICMP => self.icmp,
            TransProtocol::Other => self.other,
        }
    }
}

/// A sequence extended by one element contains exactly the old elements
/// and the new one.
pub proof fn lemma_push_contains(s: Seq<u32>, x: u32, p: u32)
    ensures
        s.push(x).contains(p) == (s.contains(p) || p == x),
{
    if s.contains(p) {
        let k = choose|k: int| 0 <= k < s.len() && s[k] == p;
        assert(s.push(x)[k] == p);
    }
    if p == x {
        assert(s.push(x)[s.len() as int] == p);
    }
    if s.push(x).contains(p) && p != x {
        let k = choose|k: int| 0 <= k < s.push(x).len() && s.push(x)[k] == p;
        assert(k < s.len());
        assert(s[k] == p);
    }
}

/// The user and processes that own the local socket of a flow.
#[derive(Clone, PartialEq, Eq, Debug)]
pub struct OwnerRecord {
    pub uid: u32,
    pub pids: Vec<u32>,
}

impl OwnerRecord {
    /// The process set holds no process id twice.
    pub open spec fn wf(self) -> bool {
        forall|i: int, j: int|
            0 <= i < j < self.pids@.len() ==> self.pids@[i] != self.pids@[j]
    }

    pub open spec fn spec_has_pid(self, pid: u32) -> bool {
        self.pids@.contains(pid)
    }

    pub fn new(uid: u32, pids: Vec<u32>) -> (r: OwnerRecord)
        requires
            forall|i: int, j: int| 0 <= i < j < pids@.len() ==> pids@[i] != pids@[j],
        ensures
            r.wf(),
            r.uid == uid,
            r.pids@ == pids@,
    {
        OwnerRecord { uid, pids }
    }

    pub fn has_pid(&self, pid: u32) -> (r: bool)
        ensures
            r == self.spec_has_pid(pid),
    {
        let mut i: usize = 0;
        while i < self.pids.len()
            invariant
                i <= self.pids@.len(),
                forall|j: int| 0 <= j < i ==> self.pids@[j] != pid,
            decreases self.pids@.len() - i,
        {
            if self.pids[i] == pid {
                return true;
            }
            i += 1;
        }
        false
    }

    /// Merge further process ids into the set; the user never changes.
    pub fn merge_pids(&mut self, more: &Vec<u32>)
        requires
            old(self).wf(),
        ensures
            final(self).wf(),
            final(self).uid == old(self).uid,
            forall|p: u32|
                final(self).spec_has_pid(p) == (old(self).spec_has_pid(p) || more@.contains(p)),
    {
        let mut i: usize = 0;
        while i < more.len()
            invariant
                i <= more@.len(),
                self.wf(),
                self.uid == old(self).uid,
                forall|p: u32|
                    self.spec_has_pid(p) == (old(self).spec_has_pid(p)
                        || more@.subrange(0, i as int).contains(p)),
            decreases more@.len() - i,
        {
            let pid = more[i];
            proof {
                assert(more@.subrange(0, i + 1 as int)
                    == more@.subrange(0, i as int).push(pid));
                lemma_push_contains(more@.subrange(0, i as int), pid, pid);
            }
            if !self.has_pid(pid) {
                let ghost prev = self.pids@;
                self.pids.push(pid);
                proof {
                    assert forall|p: u32|
                        self.pids@.contains(p) == (prev.contains(p) || p == pid) by {
                        lemma_push_contains(prev, pid, p);
                    }
                    assert forall|p: u32|
                        more@.subrange(0, i + 1 as int).contains(p)
                            == (more@.subrange(0, i as int).contains(p) || p == pid) by {
                        lemma_push_contains(more@.subrange(0, i as int), pid, p);
                    }
                    assert forall|a: int, b: int|
                        0 <= a < b < self.pids@.len() implies self.pids@[a] != self.pids@[b] by {
                        if b == prev.len() {
                            assert(self.pids@[a] == prev[a]);
                            assert(prev.contains(prev[a]));
                        }
                    }
                }
            } else {
                proof {
                    assert forall|p: u32|
                        more@.subrange(0, i + 1 as int).contains(p)
                            == (more@.subrange(0, i as int).contains(p) || p == pid) by {
                        lemma_push_contains(more@.subrange(0, i as int), pid, p);
                    }
                }
            }
            assert(forall|p: u32|
                self.spec_has_pid(p) == (old(self).spec_has_pid(p)
                    || more@.subrange(0, i + 1 as int).contains(p)));
            i += 1;
        }
        assert(more@.subrange(0, more@.len() as int) == more@);
    }
}

/// Two optional owners with the same user and the same process ids.
pub open spec fn owner_like(a: Option<OwnerRecord>, b: Option<OwnerRecord>) -> bool {
    match (a, b) {
        (Option::None, Option::None) => true,
        (Option::Some(x), Option::Some(y)) => x.uid == y.uid && x.pids@ == y.pids@,
        _ => false,
    }
}

/// Two aggregates that agree on every counter, timestamp, protocol,
/// direction and ordinal, and whose owners hold the same contents.
pub open spec fn stats_like(a: FlowStats, b: FlowStats) -> bool {
    &&& a.transmitted_bytes == b.transmitted_bytes
    &&& a.transmitted_packets == b.transmitted_packets
    &&& a.received_bytes == b.received_bytes
    &&& a.received_packets == b.received_packets
    &&& a.initial_timestamp == b.initial_timestamp
    &&& a.final_timestamp == b.final_timestamp
    &&& a.protocols_seen == b.protocols_seen
    &&& a.direction == b.direction
    &&& owner_like(a.owner, b.owner)
    &&& a.index == b.index
}

impl OwnerRecord {
    /// A copy with the same user and process ids.
    pub fn duplicate(&self) -> (r: OwnerRecord)
        ensures
            r.uid == self.uid,
            r.pids@ == self.pids@,
    {
        let mut pids: Vec<u32> = Vec::new();
        let mut i: usize = 0;
        while i < self.pids.len()
            invariant
                i <= self.pids@.len(),
                pids@ == self.pids@.subrange(0, i as int),
            decreases self.pids@.len() - i,
        {
            pids.push(self.pids[i]);
            proof {
                assert(pids@ =~= self.pids@.subrange(0, i + 1));
            }
            i += 1;
        }
        proof {
            assert(self.pids@.subrange(0, self.pids@.len() as int) =~= self.pids@);
        }
        OwnerRecord { uid: self.uid, pids }
    }
}

/// The mutable aggregate that the table keeps per flow key.
#[derive(Clone, PartialEq, Eq, Debug)]
pub struct FlowStats {
    /// Bytes and packets going out from the flow's source endpoint.
    pub transmitted_bytes: u128,
    pub transmitted_packets: u128,
    /// Bytes and packets coming in toward the flow's source endpoint.
    pub received_bytes: u128,
    pub received_packets: u128,
    /// Wall clock of the first and of the latest observation.
    pub initial_timestamp: u64,
    pub final_timestamp: u64,
    /// Every transport protocol observed on this flow.
    pub protocols_seen: ProtocolSet,
    /// The flow's direction relative to the local host.
    pub direction: TrafficDirection,
    /// The user and processes owning the local socket, when resolved.
    pub owner: Option<OwnerRecord>,
    /// Monotone insertion ordinal; a stable handle, never reused.
    pub index: u64,
}

impl FlowStats {
    /// Record well-formedness: a zero packet counter forces a zero byte
    /// counter, the first observation is no later than the latest one, and
    /// the owner's process set holds no duplicates.
    pub open spec fn wf(self) -> bool {
        &&& self.transmitted_packets == 0 ==> self.transmitted_bytes == 0
        &&& self.received_packets == 0 ==> self.received_bytes == 0
        &&& self.initial_timestamp <= self.final_timestamp
        &&& match self.owner {
            Some(o) => o.wf(),
            None => true,
        }
    }

    /// A copy carrying the same contents.
    pub fn duplicate(&self) -> (r: FlowStats)
        ensures
            stats_like(r, *self),
            r.wf() == self.wf(),
    {
        FlowStats {
            transmitted_bytes: self.transmitted_bytes,
            transmitted_packets: self.transmitted_packets,
            received_bytes: self.received_bytes,
            received_packets: self.received_packets,
            initial_timestamp: self.initial_timestamp,
            final_timestamp: self.final_timestamp,
            protocols_seen: self.protocols_seen,
            direction: self.direction,
            owner: match &self.owner {
                Some(o) => Some(o.duplicate()),
                None => None,
            },
            index: self.index,
        }
    }
}

} // verus!
