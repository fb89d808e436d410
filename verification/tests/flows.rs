use sniffnet_core::capture::{Filters, ParsedPacket, host_direction, process_packet};
use sniffnet_core::flow::{FlowKey, IpAddress, TrafficDirection, TransProtocol};
use sniffnet_core::flow_table::{FlowTable, ReportSortType};

fn v4(a: u8, b: u8, c: u8, d: u8) -> IpAddress {
    IpAddress::V4(u32::from_be_bytes([a, b, c, d]))
}

fn key(
    src: IpAddress,
    sp: u16,
    dst: IpAddress,
    dp: u16,
    t: TransProtocol,
) -> FlowKey {
    FlowKey { src_addr: src, src_port: sp, dst_addr: dst, dst_port: dp, transport: t }
}

#[test]
fn one_tcp_packet_produces_two_keys() {
    let mut table = FlowTable::new();
    let pkt = ParsedPacket {
        src_addr: v4(10, 0, 0, 1),
        src_port: 443,
        dst_addr: v4(10, 0, 0, 2),
        dst_port: 50000,
        transport: TransProtocol::TCP,
        payload_len: 500,
    };
    let f = Filters { lowest_port: 0, highest_port: 65535 };
    process_packet(&mut table, &pkt, &f, 1000).unwrap();
    assert_eq!(table.len(), 2);

    let k1 = key(v4(10, 0, 0, 1), 443, v4(10, 0, 0, 2), 50000, TransProtocol::TCP);
    let k2 = key(v4(10, 0, 0, 2), 50000, v4(10, 0, 0, 1), 443, TransProtocol::TCP);
    let i1 = table.find(&k1).unwrap();
    let i2 = table.find(&k2).unwrap();
    let s1 = &table.entries[i1].1;
    let s2 = &table.entries[i2].1;
    assert_eq!(s1.transmitted_bytes, 500);
    assert_eq!(s1.transmitted_packets, 1);
    assert_eq!(s1.received_bytes, 0);
    assert_eq!(s2.received_bytes, 500);
    assert_eq!(s2.received_packets, 1);
    assert_eq!(s2.transmitted_bytes, 0);
    assert_eq!(s1.initial_timestamp, s2.initial_timestamp);
    assert_eq!(s1.final_timestamp, s2.final_timestamp);
    assert_eq!(s1.direction, TrafficDirection::Outgoing);
    assert_eq!(s2.direction, TrafficDirection::Incoming);
}

#[test]
fn ten_udp_packets_accumulate_on_one_flow() {
    let mut table = FlowTable::new();
    let pkt = ParsedPacket {
        src_addr: v4(192, 168, 1, 5),
        src_port: 5353,
        dst_addr: v4(192, 168, 1, 9),
        dst_port: 40000,
        transport: TransProtocol::UDP,
        payload_len: 100,
    };
    // The window covers only the source port, so only the transmitted
    // side of the exchange is recorded.
    let f = Filters { lowest_port: 5000, highest_port: 6000 };
    for _ in 0..10 {
        process_packet(&mut table, &pkt, &f, 7).unwrap();
    }
    assert_eq!(table.len(), 1);
    let st = &table.entries[0].1;
    assert_eq!(st.transmitted_packets, 10);
    assert_eq!(st.transmitted_bytes, 1000);
    assert!(st.protocols_seen.udp);
    assert!(!st.protocols_seen.tcp);
    assert!(!st.protocols_seen.icmp);
    assert!(!st.protocols_seen.other);
}

#[test]
fn inverted_port_window_observes_nothing() {
    let mut table = FlowTable::new();
    let pkt = ParsedPacket {
        src_addr: v4(1, 2, 3, 4),
        src_port: 80,
        dst_addr: v4(5, 6, 7, 8),
        dst_port: 81,
        transport: TransProtocol::TCP,
        payload_len: 64,
    };
    let f = Filters { lowest_port: 90, highest_port: 10 };
    process_packet(&mut table, &pkt, &f, 1).unwrap();
    assert_eq!(table.len(), 0);
}

#[test]
fn both_endpoints_in_window_give_two_updates() {
    let mut table = FlowTable::new();
    let pkt = ParsedPacket {
        src_addr: v4(1, 1, 1, 1),
        src_port: 100,
        dst_addr: v4(2, 2, 2, 2),
        dst_port: 200,
        transport: TransProtocol::UDP,
        payload_len: 10,
    };
    let f = Filters { lowest_port: 50, highest_port: 250 };
    process_packet(&mut table, &pkt, &f, 3).unwrap();
    assert_eq!(table.len(), 2);
}

#[test]
fn coincident_endpoints_merge_into_one_flow() {
    // A packet whose source and destination endpoint are the same
    // five-tuple cannot yield two entries: both updates land on the
    // one flow keyed by that endpoint.
    let mut table = FlowTable::new();
    let pkt = ParsedPacket {
        src_addr: v4(10, 0, 0, 1),
        src_port: 7000,
        dst_addr: v4(10, 0, 0, 1),
        dst_port: 7000,
        transport: TransProtocol::UDP,
        payload_len: 50,
    };
    let f = Filters { lowest_port: 0, highest_port: 65535 };
    process_packet(&mut table, &pkt, &f, 1).unwrap();
    assert_eq!(table.len(), 1);
    let st = &table.entries[0].1;
    assert_eq!(st.transmitted_bytes, 50);
    assert_eq!(st.received_bytes, 50);
    assert_eq!(st.transmitted_packets, 1);
    assert_eq!(st.received_packets, 1);
}

#[test]
fn observe_merges_timestamps_and_protocols() {
    let mut table = FlowTable::new();
    let k = key(v4(9, 9, 9, 9), 1, v4(8, 8, 8, 8), 2, TransProtocol::TCP);
    table.observe(k, 10, 1, TransProtocol::TCP, TrafficDirection::Outgoing, 100).unwrap();
    table.observe(k, 20, 2, TransProtocol::UDP, TrafficDirection::Outgoing, 50).unwrap();
    table.observe(k, 5, 1, TransProtocol::TCP, TrafficDirection::Incoming, 200).unwrap();
    assert_eq!(table.len(), 1);
    let st = &table.entries[0].1;
    assert_eq!(st.transmitted_bytes, 30);
    assert_eq!(st.transmitted_packets, 3);
    assert_eq!(st.received_bytes, 5);
    assert_eq!(st.received_packets, 1);
    assert_eq!(st.initial_timestamp, 50);
    assert_eq!(st.final_timestamp, 200);
    assert!(st.protocols_seen.tcp && st.protocols_seen.udp);
    assert!(st.initial_timestamp <= st.final_timestamp);
    // The direction is fixed at creation.
    assert_eq!(st.direction, TrafficDirection::Outgoing);
}

#[test]
fn observe_with_unknown_direction_moves_no_counters() {
    let mut table = FlowTable::new();
    let k = key(v4(9, 9, 9, 9), 1, v4(8, 8, 8, 8), 2, TransProtocol::Other);
    table.observe(k, 10, 1, TransProtocol::Other, TrafficDirection::Unknown, 5).unwrap();
    let st = &table.entries[0].1;
    assert_eq!(st.transmitted_bytes, 0);
    assert_eq!(st.received_bytes, 0);
    assert_eq!(st.direction, TrafficDirection::Unknown);
}

#[test]
fn clear_keeps_the_ordinal_dispenser() {
    let mut table = FlowTable::new();
    let k1 = key(v4(1, 0, 0, 1), 1, v4(1, 0, 0, 2), 2, TransProtocol::TCP);
    let k2 = key(v4(1, 0, 0, 3), 3, v4(1, 0, 0, 4), 4, TransProtocol::UDP);
    table.observe(k1, 1, 1, TransProtocol::TCP, TrafficDirection::Outgoing, 1).unwrap();
    table.observe(k2, 1, 1, TransProtocol::UDP, TrafficDirection::Outgoing, 1).unwrap();
    assert_eq!(table.entries[0].1.index, 0);
    assert_eq!(table.entries[1].1.index, 1);
    table.clear();
    assert_eq!(table.len(), 0);
    table.observe(k1, 1, 1, TransProtocol::TCP, TrafficDirection::Outgoing, 2).unwrap();
    // Ordinals are never reused, also across a clear.
    assert_eq!(table.entries[0].1.index, 2);
}

#[test]
fn snapshot_of_empty_table_is_empty() {
    let table = FlowTable::new();
    let f = Filters { lowest_port: 0, highest_port: 65535 };
    let (rows, total) = table.snapshot(&f, ReportSortType::MostBytes, 1);
    assert_eq!(rows.len(), 0);
    assert_eq!(total, 0);
}

#[test]
fn snapshot_orders_by_most_bytes() {
    let mut table = FlowTable::new();
    let totals: [u64; 4] = [900, 500, 1500, 700];
    for (i, b) in totals.iter().enumerate() {
        let k = key(v4(10, 0, 0, i as u8), 1000 + i as u16, v4(10, 0, 1, i as u8), 2000,
            TransProtocol::TCP);
        table.observe(k, *b, 1, TransProtocol::TCP, TrafficDirection::Outgoing, 1).unwrap();
    }
    let f = Filters { lowest_port: 0, highest_port: 65535 };
    let (rows, total) = table.snapshot(&f, ReportSortType::MostBytes, 1);
    assert_eq!(total, 4);
    let got: Vec<u128> = rows.iter().map(|r| r.1.transmitted_bytes).collect();
    assert_eq!(got, vec![1500, 900, 700, 500]);
}

#[test]
fn snapshot_pages_hold_twenty_rows() {
    let mut table = FlowTable::new();
    for i in 0..25u16 {
        let k = key(v4(10, 0, 0, 1), 1000 + i, v4(10, 0, 0, 2), 2000, TransProtocol::UDP);
        table.observe(k, 10, 1, TransProtocol::UDP, TrafficDirection::Outgoing, 1).unwrap();
    }
    let f = Filters { lowest_port: 0, highest_port: 65535 };
    let (page1, total1) = table.snapshot(&f, ReportSortType::MostRecent, 1);
    let (page2, total2) = table.snapshot(&f, ReportSortType::MostRecent, 2);
    let (page3, _) = table.snapshot(&f, ReportSortType::MostRecent, 3);
    assert_eq!(total1, 25);
    assert_eq!(total2, 25);
    assert_eq!(page1.len(), 20);
    assert_eq!(page2.len(), 5);
    assert_eq!(page3.len(), 0);
}

#[test]
fn snapshot_ties_break_by_insertion_ordinal() {
    let mut table = FlowTable::new();
    for i in 0..3u16 {
        let k = key(v4(10, 9, 0, 1), 4000 + i, v4(10, 9, 0, 2), 2000, TransProtocol::TCP);
        table.observe(k, 100, 1, TransProtocol::TCP, TrafficDirection::Outgoing, 1).unwrap();
    }
    let f = Filters { lowest_port: 0, highest_port: 65535 };
    let (rows, _) = table.snapshot(&f, ReportSortType::MostBytes, 1);
    let ordinals: Vec<u64> = rows.iter().map(|r| r.1.index).collect();
    assert_eq!(ordinals, vec![0, 1, 2]);
}

#[test]
fn direction_follows_the_local_address_list() {
    let locals = vec![v4(192, 168, 0, 7)];
    assert_eq!(host_direction(v4(192, 168, 0, 7), v4(1, 1, 1, 1), &locals),
        TrafficDirection::Outgoing);
    assert_eq!(host_direction(v4(1, 1, 1, 1), v4(192, 168, 0, 7), &locals),
        TrafficDirection::Incoming);
    assert_eq!(host_direction(v4(1, 1, 1, 1), v4(2, 2, 2, 2), &locals),
        TrafficDirection::Unknown);
}

#[test]
fn reversing_a_key_swaps_its_endpoints() {
    let k = key(v4(1, 2, 3, 4), 10, v4(5, 6, 7, 8), 20, TransProtocol::UDP);
    let r = k.reversed();
    assert_eq!(r.src_addr, k.dst_addr);
    assert_eq!(r.src_port, 20);
    assert_eq!(r.dst_port, 10);
    assert_eq!(r.transport, TransProtocol::UDP);
    assert_eq!(r.reversed(), k);
}

#[test]
fn counter_overflow_refuses_the_observation() {
    let mut table = FlowTable::new();
    let k = key(v4(1, 1, 1, 1), 1, v4(2, 2, 2, 2), 2, TransProtocol::TCP);
    table.observe(k, 1, 1, TransProtocol::TCP, TrafficDirection::Outgoing, 1).unwrap();
    table.entries[0].1.transmitted_bytes = u128::MAX;
    let r = table.observe(k, 1, 1, TransProtocol::TCP, TrafficDirection::Outgoing, 2);
    assert_eq!(r, Err(sniffnet_core::CoreError::Internal));
    // A refused observation changes nothing.
    assert_eq!(table.entries[0].1.transmitted_bytes, u128::MAX);
    assert_eq!(table.entries[0].1.final_timestamp, 1);
}

#[test]
fn owner_attachment_merges_pids_and_keeps_uid() {
    let mut table = FlowTable::new();
    let k = key(v4(10, 0, 0, 1), 22, v4(10, 0, 0, 9), 55555, TransProtocol::TCP);
    table.observe(k, 1, 1, TransProtocol::TCP, TrafficDirection::Outgoing, 1).unwrap();
    table.attach_owner(&k, 1000, &vec![42]);
    table.attach_owner(&k, 1000, &vec![42, 77]);
    let st = &table.entries[0].1;
    let owner = st.owner.as_ref().unwrap();
    assert_eq!(owner.uid, 1000);
    assert_eq!(owner.pids, vec![42, 77]);
}
