//! The compute half of the capture pipeline: a raw frame is decoded
//! into a normalized packet, the active port window is applied, and
//! each in-range endpoint becomes one observation in the flow table.

use vstd::prelude::*;

use etherparse::IpHeader::{Version4, Version6};
use etherparse::TransportHeader::{Tcp, Udp};

use crate::flow::TransProtocol::{ICMP, Other, TCP, UDP};

use crate::CoreError;
use crate::flow::{FlowKey, IpAddress, TrafficDirection, TransProtocol, address_v4,
    address_v6};
use crate::flow_table::{FlowTable, has_key, step_table, table_wf};

verus! {

/// A link-layer frame after decoding: what the flow table needs and
/// nothing else. Transport-less or ICMP traffic carries port zero.
#[derive(Clone, Copy, PartialEq, Eq, Structural, Debug)]
pub struct ParsedPacket {
    pub src_addr: IpAddress,
    pub src_port: u16,
    pub dst_addr: IpAddress,
    pub dst_port: u16,
    pub transport: TransProtocol,
    pub payload_len: u16,
}

/// The filters active on captured traffic: the inclusive port window.
/// A window whose lower bound exceeds its upper bound admits nothing.
#[derive(Clone, Copy, PartialEq, Eq, Structural, Debug)]
pub struct Filters {
    pub lowest_port: u16,
    pub highest_port: u16,
}

impl Filters {
    /// Whether a port falls in the window.
    pub open spec fn spec_admits(self, port: u16) -> bool {
        self.lowest_port <= port && port <= self.highest_port
    }

    pub fn admits(&self, port: u16) -> (r: bool)
        ensures
            r == self.spec_admits(port),
    {
        self.lowest_port <= port && port <= self.highest_port
    }
}

impl Default for Filters {
    /// The default window admits every port.
    fn default() -> (r: Filters)
        ensures
            r.lowest_port == 0,
            r.highest_port == u16::MAX,
    {
        Filters { lowest_port: 0, highest_port: u16::MAX }
    }
}

/// What a frame decodes to, as a function of its bytes alone.
pub uninterp spec fn decoded_frame(frame: Seq<u8>) -> Option<ParsedPacket>;

/// Relies on etherparse::PacketHeaders::from_ethernet_slice: decoding
/// an Ethernet frame into its IP and transport headers depends on the
/// frame bytes alone. A frame without a readable IP header decodes to
/// nothing; one without a transport header keeps its addresses and
/// carries port zero.
#[verifier::external_body]
pub fn decode_frame(frame: &[u8]) -> (r: Option<ParsedPacket>)
    ensures
        r == decoded_frame(frame@),
{
    let h = etherparse::PacketHeaders::from_ethernet_slice(frame).ok()?;
    let (src_addr, dst_addr, payload_len) = match h.ip? {
        Version4(v, _) => (address_v4(v.source), address_v4(v.destination), v.payload_len),
        Version6(v, _) => (address_v6(v.source), address_v6(v.destination), v.payload_length),
    };
    let (src_port, dst_port, transport) = match h.transport {
        Some(Udp(u)) => (u.source_port, u.destination_port, UDP),
        Some(Tcp(t)) => (t.source_port, t.destination_port, TCP),
        p => (0, 0, if p.is_some() { ICMP } else { Other }),
    };
    Some(ParsedPacket { src_addr, src_port, dst_addr, dst_port, transport, payload_len })
}

/// Relies on std::time::SystemTime::now: the wall clock in whole
/// seconds since the Unix epoch; an instant before the epoch, where
/// the span since the epoch has no value, is reported as zero.
#[verifier::external_body]
pub fn current_unix_time() -> u64 {
    match std::time::SystemTime::now().duration_since(std::time::UNIX_EPOCH) {
        Ok(d) => d.as_secs(),
        Err(_) => 0,
    }
}

/// A packet's direction relative to the host: outgoing when its source
/// address is one of the interface's own, otherwise incoming when its
/// destination is, otherwise unknown.
pub open spec fn spec_host_direction(src: IpAddress, dst: IpAddress,
    local: Seq<IpAddress>) -> TrafficDirection {
    if local.contains(src) {
        TrafficDirection::Outgoing
    } else if local.contains(dst) {
        TrafficDirection::Incoming
    } else {
        TrafficDirection::Unknown
    }
}

/// Whether an address is one of the interface's own.
pub fn is_local_address(local: &Vec<IpAddress>, a: IpAddress) -> (r: bool)
    ensures
        r == local@.contains(a),
{
    let mut i: usize = 0;
    while i < local.len()
        invariant
            i <= local@.len(),
            forall|j: int| 0 <= j < i ==> local@[j] != a,
        decreases local@.len() - i,
    {
        if local[i] == a {
            return true;
        }
        i += 1;
    }
    false
}

/// See `spec_host_direction`.
pub fn host_direction(src: IpAddress, dst: IpAddress, local: &Vec<IpAddress>)
    -> (r: TrafficDirection)
    ensures
        r == spec_host_direction(src, dst, local@),
{
    if is_local_address(local, src) {
        TrafficDirection::Outgoing
    } else if is_local_address(local, dst) {
        TrafficDirection::Incoming
    } else {
        TrafficDirection::Unknown
    }
}

/// The flow key of the packet's source endpoint: the five-tuple as it
/// stands on the wire.
pub open spec fn source_key(p: ParsedPacket) -> FlowKey {
    FlowKey {
        src_addr: p.src_addr,
        src_port: p.src_port,
        dst_addr: p.dst_addr,
        dst_port: p.dst_port,
        transport: p.transport,
    }
}

/// The flow key of the packet's destination endpoint: the same
/// endpoints seen from the receiving side.
pub open spec fn destination_key(p: ParsedPacket) -> FlowKey {
    source_key(p).spec_reversed()
}

/// A packet as a transition on the table: one observation, outgoing,
/// for the source endpoint when its port is in the window, then one,
/// incoming, for the destination endpoint when its port is. The third
/// component tells whether every due observation was recorded.
pub open spec fn spec_process_packet(s: Seq<(FlowKey, crate::flow::FlowStats)>,
    next_index: u64, p: ParsedPacket, f: Filters, now: u64)
    -> (Seq<(FlowKey, crate::flow::FlowStats)>, u64, bool) {
    let first = if f.spec_admits(p.src_port) {
        step_table(s, next_index, source_key(p), p.payload_len as u64, 1, p.transport,
            TrafficDirection::Outgoing, now)
    } else {
        (s, next_index, true)
    };
    let second = if f.spec_admits(p.dst_port) {
        step_table(first.0, first.1, destination_key(p), p.payload_len as u64, 1, p.transport,
            TrafficDirection::Incoming, now)
    } else {
        (first.0, first.1, true)
    };
    (second.0, second.1, first.2 && second.2)
}

/// Record a decoded packet in the flow table: per `spec_process_packet`,
/// at most one observation per endpoint whose port falls in the window.
/// A window with its lower bound above its upper bound records nothing.
pub fn process_packet(table: &mut FlowTable, p: &ParsedPacket, f: &Filters, now: u64)
    -> (r: Result<(), CoreError>)
    requires
        old(table).wf(),
    ensures
        final(table).wf(),
        ({
            let out = spec_process_packet(old(table).entries@, old(table).next_index, *p, *f,
                now);
            &&& final(table).entries@ == out.0
            &&& final(table).next_index == out.1
            &&& r is Ok <==> out.2
        }),
        f.lowest_port > f.highest_port ==> final(table).entries@ == old(table).entries@
            && final(table).next_index == old(table).next_index,
{
    let mut refused = false;
    if f.admits(p.src_port) {
        let key = FlowKey {
            src_addr: p.src_addr,
            src_port: p.src_port,
            dst_addr: p.dst_addr,
            dst_port: p.dst_port,
            transport: p.transport,
        };
        if table.observe(key, p.payload_len as u64, 1, p.transport,
            TrafficDirection::Outgoing, now).is_err() {
            refused = true;
        }
    }
    if f.admits(p.dst_port) {
        let key = FlowKey {
            src_addr: p.dst_addr,
            src_port: p.dst_port,
            dst_addr: p.src_addr,
            dst_port: p.src_port,
            transport: p.transport,
        };
        if table.observe(key, p.payload_len as u64, 1, p.transport,
            TrafficDirection::Incoming, now).is_err() {
            refused = true;
        }
    }
    if refused {
        Err(CoreError::Internal)
    } else {
        Ok(())
    }
}

/// A packet whose source and destination ports both fall in the window
/// produces two updates: after a fully recorded packet, both endpoint
/// keys stand in the table.
pub proof fn lemma_both_endpoints_observed(s: Seq<(FlowKey, crate::flow::FlowStats)>,
    next_index: u64, p: ParsedPacket, f: Filters, now: u64)
    requires
        table_wf(s, next_index),
        f.spec_admits(p.src_port),
        f.spec_admits(p.dst_port),
    ensures
        ({
            let out = spec_process_packet(s, next_index, p, f, now);
            out.2 ==> has_key(out.0, source_key(p)) && has_key(out.0, destination_key(p))
        }),
{
    let first = step_table(s, next_index, source_key(p), p.payload_len as u64, 1, p.transport,
        TrafficDirection::Outgoing, now);
    crate::flow_table::lemma_step_preserves(s, next_index, source_key(p),
        p.payload_len as u64, 1, p.transport, TrafficDirection::Outgoing, now);
    crate::flow_table::lemma_step_preserves(first.0, first.1, destination_key(p),
        p.payload_len as u64, 1, p.transport, TrafficDirection::Incoming, now);
    let second = step_table(first.0, first.1, destination_key(p), p.payload_len as u64, 1,
        p.transport, TrafficDirection::Incoming, now);
    if first.2 && second.2 {
        lemma_step_keeps_keys(first.0, first.1, destination_key(p), p.payload_len as u64, 1,
            p.transport, TrafficDirection::Incoming, now, source_key(p));
    }
}

/// An observation never drops a key already in the table.
pub proof fn lemma_step_keeps_keys(s: Seq<(FlowKey, crate::flow::FlowStats)>,
    next_index: u64, k: FlowKey, delta_bytes: u64, delta_packets: u64,
    protocol: TransProtocol, direction: TrafficDirection, now: u64, k2: FlowKey)
    requires
        has_key(s, k2),
    ensures
        has_key(step_table(s, next_index, k, delta_bytes, delta_packets, protocol, direction,
            now).0, k2),
{
    let out = step_table(s, next_index, k, delta_bytes, delta_packets, protocol, direction,
        now);
    let i = choose|i: int| 0 <= i < s.len() && s[i].0 == k2;
    if has_key(s, k) {
        if crate::flow_table::observe_fits(crate::flow_table::stats_of(s, k), delta_bytes,
            delta_packets, direction) {
            let j = crate::flow_table::key_at(s, k);
            if i == j {
                assert(out.0[i].0 == k);
                assert(s[i].0 == k2);
                assert(has_key(out.0, k2));
            } else {
                assert(out.0[i].0 == k2);
            }
        }
    } else {
        if next_index < u64::MAX {
            assert(out.0[i].0 == k2);
        }
    }
}

} // verus!
