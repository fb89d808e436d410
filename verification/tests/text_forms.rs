use sniffnet_core::capture::{decode_frame, current_unix_time};
use sniffnet_core::flow::{FlowKey, FlowStats, IpAddress, ProtocolSet, TrafficDirection,
    TransProtocol};
use sniffnet_core::text::{address_text, cgroup_classid_path, cgroup_name, classid_value_text,
    command_argv, dec_string, report_text};
use sniffnet_core::traffic_control::KernelOp;

#[test]
fn decimal_text() {
    assert_eq!(dec_string(0), "0");
    assert_eq!(dec_string(7), "7");
    assert_eq!(dec_string(12345), "12345");
    assert_eq!(dec_string(u128::MAX), "340282366920938463463374607431768211455");
}

#[test]
fn classid_value_is_prefixed_four_digit_hex() {
    assert_eq!(classid_value_text(7), "0x10007");
    assert_eq!(classid_value_text(0x1a2b), "0x11a2b");
    assert_eq!(classid_value_text(0xffff), "0x1ffff");
}

#[test]
fn address_texts() {
    assert_eq!(address_text(IpAddress::V4(u32::from_be_bytes([10, 0, 0, 1]))), "10.0.0.1");
    assert_eq!(address_text(IpAddress::V4(u32::from_be_bytes([255, 255, 255, 255]))),
        "255.255.255.255");
    let v6 = IpAddress::V6(u128::from_be_bytes([
        0x20, 0x01, 0x0d, 0xb8, 0, 0, 0, 0, 0, 0, 0, 0, 0, 0, 0, 0x01,
    ]));
    assert_eq!(address_text(v6), "[2001:0db8:0000:0000:0000:0000:0000:0001]");
}

#[test]
fn cgroup_names_and_paths() {
    assert_eq!(cgroup_name(1234), "net_cls:sniffnet_1234");
    assert_eq!(cgroup_classid_path(1234), "/sys/fs/cgroup/net_cls/sniffnet_1234/net_cls.classid");
}

#[test]
fn report_lines_have_header_stats_and_blank() {
    let key = FlowKey {
        src_addr: IpAddress::V4(u32::from_be_bytes([192, 168, 1, 2])),
        src_port: 443,
        dst_addr: IpAddress::V4(u32::from_be_bytes([192, 168, 1, 3])),
        dst_port: 50000,
        transport: TransProtocol::TCP,
    };
    let stats = FlowStats {
        transmitted_bytes: 500,
        transmitted_packets: 1,
        received_bytes: 0,
        received_packets: 0,
        initial_timestamp: 10,
        final_timestamp: 12,
        protocols_seen: ProtocolSet { tcp: true, udp: false, icmp: false, other: false },
        direction: TrafficDirection::Outgoing,
        owner: None,
        index: 0,
    };
    let text = report_text(&vec![(key, stats)]);
    assert_eq!(text,
        "Address: 192.168.1.2:443\n\
         Sent: 500 bytes (1 packets), Received: 0 bytes (0 packets), \
         First: 10, Last: 12, Protocols: TCP\n\n");
}

#[test]
fn qdisc_argv_matches_the_command_surface() {
    let argv = command_argv(&KernelOp::QdiscAddRootHtb, "eth0").unwrap();
    assert_eq!(argv, vec!["tc", "qdisc", "add", "dev", "eth0", "root", "handle", "1:", "htb"]);
    let argv = command_argv(&KernelOp::QdiscDelIngress, "wlan1").unwrap();
    assert_eq!(argv, vec!["tc", "qdisc", "del", "dev", "wlan1", "ingress"]);
}

#[test]
fn class_and_filter_argv_interpolate_identifiers() {
    let argv = command_argv(&KernelOp::ClassAddHtb { classid: 3, kbps: 200 }, "eth0").unwrap();
    assert_eq!(argv, vec!["tc", "class", "add", "dev", "eth0", "parent", "1:", "classid",
        "1:3", "htb", "rate", "200kbps"]);
    let argv = command_argv(
        &KernelOp::FilterAddEgressPortPolice { prio: 2, port: 8080, kbps: 100, burst_kb: 256 },
        "eth0",
    ).unwrap();
    assert_eq!(argv, vec!["tc", "filter", "add", "dev", "eth0", "parent", "1:", "protocol",
        "ip", "prio", "2", "basic", "match", "'cmp(u16", "at", "0", "layer", "transport",
        "eq", "8080)'", "action", "police", "rate", "100kbps", "burst", "256k"]);
}

#[test]
fn cgroup_argv_and_classid_write() {
    let argv = command_argv(&KernelOp::CgroupCreate { pid: 42 }, "eth0").unwrap();
    assert_eq!(argv, vec!["cgcreate", "-g", "net_cls:sniffnet_42"]);
    let argv = command_argv(&KernelOp::CgroupClassifyPid { pid: 42 }, "eth0").unwrap();
    assert_eq!(argv, vec!["cgclassify", "-g", "net_cls:sniffnet_42", "42"]);
    // The classid write is a file write, not a command.
    assert!(command_argv(&KernelOp::CgroupWriteClassid { pid: 42, classid: 3 }, "eth0")
        .is_none());
}

#[test]
fn decode_frame_reads_a_real_tcp_packet() {
    // A frame built by the same packet library the decoder calls.
    let builder = etherparse::PacketBuilder::ethernet2([1, 2, 3, 4, 5, 6], [7, 8, 9, 10, 11, 12])
        .ipv4([10, 0, 0, 1], [10, 0, 0, 2], 64)
        .tcp(443, 50000, 1, 1024);
    let payload = [0u8; 100];
    let mut frame = Vec::with_capacity(builder.size(payload.len()));
    builder.write(&mut frame, &payload).unwrap();

    let pkt = decode_frame(&frame).unwrap();
    assert_eq!(pkt.src_addr, IpAddress::V4(u32::from_be_bytes([10, 0, 0, 1])));
    assert_eq!(pkt.dst_addr, IpAddress::V4(u32::from_be_bytes([10, 0, 0, 2])));
    assert_eq!(pkt.src_port, 443);
    assert_eq!(pkt.dst_port, 50000);
    assert_eq!(pkt.transport, TransProtocol::TCP);
    // The IPv4 payload length covers the TCP header and the payload.
    assert_eq!(pkt.payload_len, 120);
}

#[test]
fn decode_frame_rejects_garbage() {
    assert!(decode_frame(&[0u8; 7]).is_none());
}

#[test]
fn decode_frame_reads_udp_over_ipv6() {
    let builder = etherparse::PacketBuilder::ethernet2([1, 2, 3, 4, 5, 6], [7, 8, 9, 10, 11, 12])
        .ipv6([0x20, 0x01, 0, 0, 0, 0, 0, 0, 0, 0, 0, 0, 0, 0, 0, 1],
            [0x20, 0x01, 0, 0, 0, 0, 0, 0, 0, 0, 0, 0, 0, 0, 0, 2], 64)
        .udp(5353, 5353);
    let payload = [1u8, 2, 3];
    let mut frame = Vec::with_capacity(builder.size(payload.len()));
    builder.write(&mut frame, &payload).unwrap();

    let pkt = decode_frame(&frame).unwrap();
    assert_eq!(pkt.transport, TransProtocol::UDP);
    assert_eq!(pkt.src_port, 5353);
    match pkt.src_addr {
        IpAddress::V6(v) => {
            assert_eq!(v >> 112, 0x2001);
        },
        _ => panic!("expected a v6 address"),
    }
}

#[test]
fn ingesting_frames_fills_the_table_and_counts_failures() {
    let mut core = sniffnet_core::controller::CoreController::new(true);
    core.start_capture(String::from("eth0"), 0, 65535, None);

    let builder = etherparse::PacketBuilder::ethernet2([1, 2, 3, 4, 5, 6], [7, 8, 9, 10, 11, 12])
        .ipv4([10, 0, 0, 1], [10, 0, 0, 2], 64)
        .tcp(443, 50000, 1, 1024);
    let payload = [0u8; 10];
    let mut frame = Vec::with_capacity(builder.size(payload.len()));
    builder.write(&mut frame, &payload).unwrap();

    core.ingest_frame(&frame).unwrap();
    assert_eq!(core.table.len(), 2);
    assert_eq!(core.decode_failures, 0);

    assert!(core.ingest_frame(&[0u8; 5]).is_err());
    assert_eq!(core.decode_failures, 1);
    assert_eq!(core.table.len(), 2);
}

#[test]
fn wall_clock_is_past_the_epoch() {
    let t = current_unix_time();
    // Any sane host clock stands well past 2001.
    assert!(t > 1_000_000_000);
}
