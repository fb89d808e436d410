use sniffnet_core::flow::{FlowKey, FlowStats, IpAddress, OwnerRecord, ProtocolSet,
    TrafficDirection, TransProtocol};
use sniffnet_core::flow_table::ReportSortType;
use sniffnet_core::report::{MonitoredPort, MonitoredProcess, MonitoredUser, ReportView,
    rollup_by_port, rollup_by_process, rollup_by_user};
use sniffnet_core::resolver::{SocketEntry, TransportQuery, resolve_owner};
use sniffnet_core::sort::sort_rows;

fn v4(a: u8, b: u8, c: u8, d: u8) -> IpAddress {
    IpAddress::V4(u32::from_be_bytes([a, b, c, d]))
}

fn flow(
    sp: u16,
    dp: u16,
    dir: TrafficDirection,
    sent: u128,
    received: u128,
    owner: Option<(u32, Vec<u32>)>,
    index: u64,
) -> (FlowKey, FlowStats) {
    let key = FlowKey {
        src_addr: v4(10, 0, 0, 1),
        src_port: sp,
        dst_addr: v4(10, 0, 0, 2),
        dst_port: dp,
        transport: TransProtocol::TCP,
    };
    let stats = FlowStats {
        transmitted_bytes: sent,
        transmitted_packets: if sent > 0 { 1 } else { 0 },
        received_bytes: received,
        received_packets: if received > 0 { 1 } else { 0 },
        initial_timestamp: 1,
        final_timestamp: 2,
        protocols_seen: ProtocolSet { tcp: true, udp: false, icmp: false, other: false },
        direction: dir,
        owner: owner.map(|(uid, pids)| OwnerRecord { uid, pids }),
        index,
    };
    (key, stats)
}

#[test]
fn process_rollup_counts_shared_sockets_for_every_owner() {
    // Two flows owned by {uid 1000, pids {42}}, a third by
    // {uid 1000, pids {42, 77}}.
    let entries = vec![
        flow(1, 2, TrafficDirection::Outgoing, 100, 10, Some((1000, vec![42])), 0),
        flow(3, 4, TrafficDirection::Outgoing, 200, 20, Some((1000, vec![42])), 1),
        flow(5, 6, TrafficDirection::Outgoing, 400, 40, Some((1000, vec![42, 77])), 2),
    ];
    let rows = rollup_by_process(&entries).unwrap();
    assert_eq!(rows.len(), 2);
    let p42 = rows.iter().find(|r| r.pid == 42).unwrap();
    let p77 = rows.iter().find(|r| r.pid == 77).unwrap();
    assert_eq!(p42.total_sent_bytes, 700);
    assert_eq!(p42.total_received_bytes, 70);
    assert_eq!(p77.total_sent_bytes, 400);
    assert_eq!(p77.total_received_bytes, 40);
}

#[test]
fn ownerless_flows_fall_to_the_sentinel_process() {
    let entries = vec![
        flow(1, 2, TrafficDirection::Outgoing, 50, 5, None, 0),
        flow(3, 4, TrafficDirection::Incoming, 0, 7, None, 1),
    ];
    let rows = rollup_by_process(&entries).unwrap();
    assert_eq!(rows.len(), 1);
    assert_eq!(rows[0].pid, 0);
    assert_eq!(rows[0].total_sent_bytes, 50);
    assert_eq!(rows[0].total_received_bytes, 12);
    assert_eq!(rows[0].total_received_packets, 2);
}

#[test]
fn port_rollup_follows_the_direction_rule() {
    let entries = vec![
        // Outgoing: counts under its source port.
        flow(80, 9000, TrafficDirection::Outgoing, 100, 0, None, 0),
        // Incoming: counts under its destination port.
        flow(9001, 80, TrafficDirection::Incoming, 0, 30, None, 1),
        // Unknown: counts under both ports.
        flow(80, 81, TrafficDirection::Unknown, 0, 0, None, 2),
    ];
    let rows = rollup_by_port(&entries).unwrap();
    let p80 = rows.iter().find(|r| r.port == 80).unwrap();
    assert_eq!(p80.total_sent_bytes, 100);
    assert_eq!(p80.total_received_bytes, 30);
    assert!(rows.iter().any(|r| r.port == 81));
    assert!(!rows.iter().any(|r| r.port == 9000));
    assert!(!rows.iter().any(|r| r.port == 9001));
}

#[test]
fn user_rollup_uses_the_sentinel_for_ownerless_flows() {
    let entries = vec![
        flow(1, 2, TrafficDirection::Outgoing, 10, 0, Some((1000, vec![1])), 0),
        flow(3, 4, TrafficDirection::Outgoing, 20, 0, Some((1000, vec![2])), 1),
        flow(5, 6, TrafficDirection::Outgoing, 40, 0, None, 2),
    ];
    let rows = rollup_by_user(&entries).unwrap();
    assert_eq!(rows.len(), 2);
    let known = rows.iter().find(|r| r.uid == 1000).unwrap();
    let unknown = rows.iter().find(|r| r.uid == u32::MAX).unwrap();
    assert_eq!(known.total_sent_bytes, 30);
    assert_eq!(unknown.total_sent_bytes, 40);
}

#[test]
fn bucket_rows_sort_by_bytes_with_key_ascending_ties() {
    let mut rows = vec![
        MonitoredProcess {
            pid: 9,
            total_sent_bytes: 10,
            total_sent_packets: 1,
            total_received_bytes: 0,
            total_received_packets: 0,
        },
        MonitoredProcess {
            pid: 3,
            total_sent_bytes: 10,
            total_sent_packets: 1,
            total_received_bytes: 0,
            total_received_packets: 0,
        },
        MonitoredProcess {
            pid: 7,
            total_sent_bytes: 99,
            total_sent_packets: 2,
            total_received_bytes: 1,
            total_received_packets: 1,
        },
    ];
    sort_rows(ReportSortType::MostBytes, &mut rows);
    let pids: Vec<u32> = rows.iter().map(|r| r.pid).collect();
    assert_eq!(pids, vec![7, 3, 9]);
}

#[test]
fn port_and_user_buckets_sort_too() {
    let mut ports = vec![MonitoredPort::new(9), MonitoredPort::new(2)];
    sort_rows(ReportSortType::MostPackets, &mut ports);
    assert_eq!(ports[0].port, 2);

    let mut users = vec![MonitoredUser::new(8), MonitoredUser::new(1)];
    sort_rows(ReportSortType::MostBytes, &mut users);
    assert_eq!(users[0].uid, 1);
}

#[test]
fn fresh_buckets_start_at_zero() {
    let p = MonitoredProcess::new(42);
    assert_eq!((p.pid, p.total_sent_bytes, p.total_sent_packets), (42, 0, 0));
    assert_eq!((p.total_received_bytes, p.total_received_packets), (0, 0));
    let q = MonitoredPort::new(80);
    assert_eq!((q.port, q.total_sent_bytes), (80, 0));
    let u = MonitoredUser::new(7);
    assert_eq!((u.uid, u.total_received_bytes), (7, 0));
}

#[test]
fn report_view_labels() {
    assert_eq!(ReportView::Detailed.get_radio_label(), "Detailed");
    assert_eq!(ReportView::Process.get_radio_label(), "Process");
    assert_eq!(ReportView::User.get_radio_label(), "User");
    assert_eq!(ReportView::Port.get_radio_label(), "Port");
}

#[test]
fn rollup_overflow_is_an_internal_error() {
    let entries = vec![
        flow(1, 2, TrafficDirection::Outgoing, u128::MAX, 0, Some((1, vec![5])), 0),
        flow(3, 4, TrafficDirection::Outgoing, u128::MAX, 0, Some((1, vec![5])), 1),
    ];
    assert_eq!(rollup_by_process(&entries), Err(sniffnet_core::CoreError::Internal));
    assert_eq!(rollup_by_user(&entries), Err(sniffnet_core::CoreError::Internal));
}

#[test]
fn resolver_returns_the_first_matching_socket() {
    let sockets = vec![
        SocketEntry { transport: TransProtocol::UDP, local_port: 53, uid: 1, pids: vec![5] },
        SocketEntry { transport: TransProtocol::TCP, local_port: 80, uid: 2, pids: vec![6] },
        SocketEntry { transport: TransProtocol::TCP, local_port: 80, uid: 3, pids: vec![7] },
    ];
    assert_eq!(resolve_owner(&sockets, TransportQuery::Tcp, 80), Some(1));
    assert_eq!(resolve_owner(&sockets, TransportQuery::Udp, 80), None);
    assert_eq!(resolve_owner(&sockets, TransportQuery::Both, 53), Some(0));
    assert_eq!(resolve_owner(&sockets, TransportQuery::Tcp, 22), None);
}
