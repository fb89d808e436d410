//! Stable textual forms: decimal and hexadecimal numbers, canonical
//! addresses, the report file's lines, and the argument vectors handed
//! to the host's traffic-control and cgroup utilities.

use vstd::prelude::*;

use crate::flow::{FlowKey, FlowStats, IpAddress, ProtocolSet};
use crate::traffic_control::KernelOp;

verus! {

/// The character of one decimal or hexadecimal digit.
pub open spec fn digit_char(n: int) -> char {
    if n == 0 { '0' }
    else if n == 1 { '1' }
    else if n == 2 { '2' }
    else if n == 3 { '3' }
    else if n == 4 { '4' }
    else if n == 5 { '5' }
    else if n == 6 { '6' }
    else if n == 7 { '7' }
    else if n == 8 { '8' }
    else if n == 9 { '9' }
    else if n == 10 { 'a' }
    else if n == 11 { 'b' }
    else if n == 12 { 'c' }
    else if n == 13 { 'd' }
    else if n == 14 { 'e' }
    else { 'f' }
}

/// A number written in decimal, no leading zeroes, zero as "0".
pub open spec fn dec_digits(n: int) -> Seq<char>
    decreases n,
{
    if n < 10 {
        seq![digit_char(n)]
    } else {
        dec_digits(n / 10).push(digit_char(n % 10))
    }
}

/// A number below sixteen to the fourth written in exactly four
/// hexadecimal digits, lowercase.
pub open spec fn hex4_digits(n: int) -> Seq<char> {
    seq![
        digit_char((n / 0x1000) % 16),
        digit_char((n / 0x100) % 16),
        digit_char((n / 0x10) % 16),
        digit_char(n % 16),
    ]
}

/// One digit as a string slice.
fn digit_str(d: u8) -> (r: &'static str)
    requires
        d < 16,
    ensures
        r@ == seq![digit_char(d as int)],
{
    let r: &'static str = match d {
        0 => "0",
        1 => "1",
        2 => "2",
        3 => "3",
        4 => "4",
        5 => "5",
        6 => "6",
        7 => "7",
        8 => "8",
        9 => "9",
        10 => "a",
        11 => "b",
        12 => "c",
        13 => "d",
        14 => "e",
        _ => "f",
    };
    proof {
        reveal_strlit("0");
        reveal_strlit("1");
        reveal_strlit("2");
        reveal_strlit("3");
        reveal_strlit("4");
        reveal_strlit("5");
        reveal_strlit("6");
        reveal_strlit("7");
        reveal_strlit("8");
        reveal_strlit("9");
        reveal_strlit("a");
        reveal_strlit("b");
        reveal_strlit("c");
        reveal_strlit("d");
        reveal_strlit("e");
        reveal_strlit("f");
        assert(r@ =~= seq![digit_char(d as int)]);
    }
    r
}

/// Append a number in decimal.
pub fn append_dec(s: &mut String, n: u128)
    ensures
        final(s)@ == old(s)@ + dec_digits(n as int),
    decreases n,
{
    if n >= 10 {
        append_dec(s, n / 10);
    }
    let d = (n % 10) as u8;
    s.append(digit_str(d));
    proof {
        if n < 10 {
            assert(s@ =~= old(s)@ + dec_digits(n as int));
        } else {
            assert(s@ =~= old(s)@ + dec_digits(n as int));
        }
    }
}

/// A number in decimal, as a fresh string.
pub fn dec_string(n: u128) -> (r: String)
    ensures
        r@ == dec_digits(n as int),
{
    let mut s = String::new();
    append_dec(&mut s, n);
    proof {
        assert(s@ =~= dec_digits(n as int));
    }
    s
}

/// Append a sixteen-bit number in exactly four hexadecimal digits.
pub fn append_hex4(s: &mut String, n: u16)
    ensures
        final(s)@ == old(s)@ + hex4_digits(n as int),
{
    s.append(digit_str(((n / 0x1000) % 16) as u8));
    s.append(digit_str(((n / 0x100) % 16) as u8));
    s.append(digit_str(((n / 0x10) % 16) as u8));
    s.append(digit_str((n % 16) as u8));
    proof {
        assert(s@ =~= old(s)@ + hex4_digits(n as int));
    }
}

/// What a control group's classid file receives: `0x1` followed by the
/// identifier in exactly four hexadecimal digits.
pub open spec fn spec_classid_value(id: int) -> Seq<char> {
    seq!['0', 'x', '1'] + hex4_digits(id)
}

/// See `spec_classid_value`.
pub fn classid_value_text(id: u16) -> (r: String)
    ensures
        r@ == spec_classid_value(id as int),
{
    let mut s = String::from_str("0x1");
    proof {
        reveal_strlit("0x1");
    }
    append_hex4(&mut s, id);
    proof {
        assert(s@ =~= spec_classid_value(id as int));
    }
    s
}

/// The canonical text of an address: dotted decimal for IPv4; for
/// IPv6, eight colon-separated groups of four hexadecimal digits,
/// never compressed, in brackets.
pub open spec fn spec_address_text(a: IpAddress) -> Seq<char> {
    match a {
        IpAddress::V4(v) => dec_digits((v as int) / 0x1000000) + seq!['.']
            + dec_digits(((v as int) / 0x10000) % 256) + seq!['.']
            + dec_digits(((v as int) / 0x100) % 256) + seq!['.']
            + dec_digits((v as int) % 256),
        IpAddress::V6(v) => seq!['['] + hex4_digits(((v as int) / 0x10000000000000000000000000000) % 0x10000)
            + seq![':'] + hex4_digits(((v as int) / 0x1000000000000000000000000) % 0x10000)
            + seq![':'] + hex4_digits(((v as int) / 0x100000000000000000000) % 0x10000)
            + seq![':'] + hex4_digits(((v as int) / 0x10000000000000000) % 0x10000)
            + seq![':'] + hex4_digits(((v as int) / 0x1000000000000) % 0x10000)
            + seq![':'] + hex4_digits(((v as int) / 0x100000000) % 0x10000)
            + seq![':'] + hex4_digits(((v as int) / 0x10000) % 0x10000)
            + seq![':'] + hex4_digits((v as int) % 0x10000) + seq![']'],
    }
}

/// See `spec_address_text`.
pub fn address_text(a: IpAddress) -> (r: String)
    ensures
        r@ == spec_address_text(a),
{
    let mut s = String::new();
    match a {
        IpAddress::V4(v) => {
            append_dec(&mut s, (v / 0x1000000) as u128);
            s.append(".");
            append_dec(&mut s, ((v / 0x10000) % 256) as u128);
            s.append(".");
            append_dec(&mut s, ((v / 0x100) % 256) as u128);
            s.append(".");
            append_dec(&mut s, (v % 256) as u128);
            proof {
                reveal_strlit(".");
                assert(s@ =~= spec_address_text(a));
            }
        },
        IpAddress::V6(v) => {
            s.append("[");
            append_hex4(&mut s, ((v / 0x10000000000000000000000000000) % 0x10000) as u16);
            s.append(":");
            append_hex4(&mut s, ((v / 0x1000000000000000000000000) % 0x10000) as u16);
            s.append(":");
            append_hex4(&mut s, ((v / 0x100000000000000000000) % 0x10000) as u16);
            s.append(":");
            append_hex4(&mut s, ((v / 0x10000000000000000) % 0x10000) as u16);
            s.append(":");
            append_hex4(&mut s, ((v / 0x1000000000000) % 0x10000) as u16);
            s.append(":");
            append_hex4(&mut s, ((v / 0x100000000) % 0x10000) as u16);
            s.append(":");
            append_hex4(&mut s, ((v / 0x10000) % 0x10000) as u16);
            s.append(":");
            append_hex4(&mut s, (v % 0x10000) as u16);
            s.append("]");
            proof {
                reveal_strlit("[");
                reveal_strlit(":");
                reveal_strlit("]");
                assert(s@ =~= spec_address_text(a));
            }
        },
    }
    s
}

/// The protocols of a flow, each name prefixed by one space, in the
/// fixed order TCP, UDP, ICMP, Other.
pub open spec fn spec_protocols_text(ps: ProtocolSet) -> Seq<char> {
    (if ps.tcp { " TCP"@ } else { Seq::<char>::empty() })
        + (if ps.udp { " UDP"@ } else { Seq::<char>::empty() })
        + (if ps.icmp { " ICMP"@ } else { Seq::<char>::empty() })
        + (if ps.other { " Other"@ } else { Seq::<char>::empty() })
}

/// A flow's aggregate on one line: counters, first and latest
/// observation in seconds since the epoch, and the protocols seen.
pub open spec fn spec_stats_line(st: FlowStats) -> Seq<char> {
    "Sent: "@ + dec_digits(st.transmitted_bytes as int) + " bytes ("@
        + dec_digits(st.transmitted_packets as int) + " packets), Received: "@
        + dec_digits(st.received_bytes as int) + " bytes ("@
        + dec_digits(st.received_packets as int) + " packets), First: "@
        + dec_digits(st.initial_timestamp as int) + ", Last: "@
        + dec_digits(st.final_timestamp as int) + ", Protocols:"@
        + spec_protocols_text(st.protocols_seen)
}

/// One report entry: the address header over the flow's source
/// endpoint, the aggregate line, and a blank line.
pub open spec fn spec_row_text(e: (FlowKey, FlowStats)) -> Seq<char> {
    "Address: "@ + spec_address_text(e.0.src_addr) + seq![':']
        + dec_digits(e.0.src_port as int) + seq!['\n'] + spec_stats_line(e.1)
        + seq!['\n', '\n']
}

/// The report file body: every entry's three lines, in table order.
pub open spec fn spec_report_text(s: Seq<(FlowKey, FlowStats)>) -> Seq<char>
    decreases s.len(),
{
    if s.len() == 0 {
        Seq::empty()
    } else {
        spec_report_text(s.drop_last()) + spec_row_text(s.last())
    }
}

/// Append the protocol names; see `spec_protocols_text`.
pub fn append_protocols(s: &mut String, ps: ProtocolSet)
    ensures
        final(s)@ == old(s)@ + spec_protocols_text(ps),
{
    if ps.tcp {
        s.append(" TCP");
    }
    if ps.udp {
        s.append(" UDP");
    }
    if ps.icmp {
        s.append(" ICMP");
    }
    if ps.other {
        s.append(" Other");
    }
    proof {
        assert(s@ =~= old(s)@ + spec_protocols_text(ps));
    }
}

/// Append one aggregate line; see `spec_stats_line`.
pub fn append_stats_line(s: &mut String, st: &FlowStats)
    ensures
        final(s)@ == old(s)@ + spec_stats_line(*st),
{
    s.append("Sent: ");
    append_dec(s, st.transmitted_bytes);
    s.append(" bytes (");
    append_dec(s, st.transmitted_packets);
    s.append(" packets), Received: ");
    append_dec(s, st.received_bytes);
    s.append(" bytes (");
    append_dec(s, st.received_packets);
    s.append(" packets), First: ");
    append_dec(s, st.initial_timestamp as u128);
    s.append(", Last: ");
    append_dec(s, st.final_timestamp as u128);
    s.append(", Protocols:");
    append_protocols(s, st.protocols_seen);
    proof {
        assert(s@ =~= old(s)@ + spec_stats_line(*st));
    }
}

/// Append one report entry; see `spec_row_text`.
pub fn append_row_text(s: &mut String, key: &FlowKey, st: &FlowStats)
    ensures
        final(s)@ == old(s)@ + spec_row_text((*key, *st)),
{
    s.append("Address: ");
    let addr = address_text(key.src_addr);
    s.append(addr.as_str());
    s.append(":");
    append_dec(s, key.src_port as u128);
    s.append("\n");
    append_stats_line(s, st);
    s.append("\n\n");
    proof {
        reveal_strlit(":");
        reveal_strlit("\n");
        reveal_strlit("\n\n");
        assert(s@ =~= old(s)@ + spec_row_text((*key, *st)));
    }
}

/// The report file body for these entries, in order; UTF-8 text whose
/// line break is the newline character alone.
pub fn report_text(entries: &Vec<(FlowKey, FlowStats)>) -> (r: String)
    ensures
        r@ == spec_report_text(entries@),
{
    let mut s = String::new();
    let mut i: usize = 0;
    while i < entries.len()
        invariant
            i <= entries@.len(),
            s@ == spec_report_text(entries@.subrange(0, i as int)),
        decreases entries@.len() - i,
    {
        proof {
            assert(entries@.subrange(0, i + 1).drop_last() =~= entries@.subrange(0, i as int));
            assert(entries@.subrange(0, i + 1).last() == entries@[i as int]);
        }
        let e = &entries[i];
        append_row_text(&mut s, &e.0, &e.1);
        i += 1;
    }
    proof {
        assert(entries@.subrange(0, entries@.len() as int) =~= entries@);
    }
    s
}

/// The control group of a throttled process, as named on the cgroup
/// command lines.
pub open spec fn spec_cgroup_name(pid: int) -> Seq<char> {
    "net_cls:sniffnet_"@ + dec_digits(pid)
}

/// See `spec_cgroup_name`.
pub fn cgroup_name(pid: u32) -> (r: String)
    ensures
        r@ == spec_cgroup_name(pid as int),
{
    let mut s = String::from_str("net_cls:sniffnet_");
    append_dec(&mut s, pid as u128);
    proof {
        assert(s@ =~= spec_cgroup_name(pid as int));
    }
    s
}

/// The classid file of a throttled process's control group.
pub open spec fn spec_cgroup_classid_path(pid: int) -> Seq<char> {
    "/sys/fs/cgroup/net_cls/sniffnet_"@ + dec_digits(pid) + "/net_cls.classid"@
}

/// See `spec_cgroup_classid_path`.
pub fn cgroup_classid_path(pid: u32) -> (r: String)
    ensures
        r@ == spec_cgroup_classid_path(pid as int),
{
    let mut s = String::from_str("/sys/fs/cgroup/net_cls/sniffnet_");
    append_dec(&mut s, pid as u128);
    s.append("/net_cls.classid");
    proof {
        assert(s@ =~= spec_cgroup_classid_path(pid as int));
    }
    s
}

/// The classid written on tc command lines: `1:` and the identifier in
/// decimal.
pub open spec fn spec_classid_arg(id: int) -> Seq<char> {
    "1:"@ + dec_digits(id)
}

fn classid_arg(id: u16) -> (r: String)
    ensures
        r@ == spec_classid_arg(id as int),
{
    let mut s = String::from_str("1:");
    append_dec(&mut s, id as u128);
    proof {
        assert(s@ =~= spec_classid_arg(id as int));
    }
    s
}

/// A rate argument: the kilobytes per second in decimal and `kbps`.
pub open spec fn spec_rate_arg(kbps: int) -> Seq<char> {
    dec_digits(kbps) + "kbps"@
}

fn rate_arg(kbps: usize) -> (r: String)
    ensures
        r@ == spec_rate_arg(kbps as int),
{
    let mut s = String::new();
    append_dec(&mut s, kbps as u128);
    s.append("kbps");
    proof {
        assert(s@ =~= spec_rate_arg(kbps as int));
    }
    s
}

/// A burst argument: the kilobytes in decimal and `k`.
pub open spec fn spec_burst_arg(burst_kb: int) -> Seq<char> {
    dec_digits(burst_kb) + "k"@
}

fn burst_arg(burst_kb: usize) -> (r: String)
    ensures
        r@ == spec_burst_arg(burst_kb as int),
{
    let mut s = String::new();
    append_dec(&mut s, burst_kb as u128);
    s.append("k");
    proof {
        assert(s@ =~= spec_burst_arg(burst_kb as int));
    }
    s
}

/// A port match argument of the basic filter: the port in decimal and
/// the closing of the comparison.
pub open spec fn spec_port_match_arg(port: int) -> Seq<char> {
    dec_digits(port) + ")'"@
}

fn port_match_arg(port: u16) -> (r: String)
    ensures
        r@ == spec_port_match_arg(port as int),
{
    let mut s = String::new();
    append_dec(&mut s, port as u128);
    s.append(")'");
    proof {
        assert(s@ =~= spec_port_match_arg(port as int));
    }
    s
}

/// The argument vector of one kernel operation, the program first and
/// the interface interpolated. Writing a control group's classid file
/// has no argument vector: it is a file write of
/// `spec_classid_value` to `spec_cgroup_classid_path`.
pub open spec fn spec_command_argv(op: KernelOp, interface: Seq<char>)
    -> Option<Seq<Seq<char>>> {
    match op {
        KernelOp::QdiscDelRoot => Some(
            seq!["tc"@, "qdisc"@, "del"@, "dev"@, interface, "root"@],
        ),
        KernelOp::QdiscDelIngress => Some(
            seq!["tc"@, "qdisc"@, "del"@, "dev"@, interface, "ingress"@],
        ),
        KernelOp::QdiscAddRootHtb => Some(
            seq!["tc"@, "qdisc"@, "add"@, "dev"@, interface, "root"@, "handle"@, "1:"@,
                "htb"@],
        ),
        KernelOp::QdiscAddIngress => Some(
            seq!["tc"@, "qdisc"@, "add"@, "dev"@, interface, "ingress"@],
        ),
        KernelOp::FilterAddIngressPolice { kbps, burst_kb } => Some(
            seq!["tc"@, "filter"@, "add"@, "dev"@, interface, "parent"@, "ffff:"@,
                "protocol"@, "ip"@, "u32"@, "match"@, "u32"@, "0"@, "0"@, "police"@,
                "rate"@, spec_rate_arg(kbps as int), "burst"@,
                spec_burst_arg(burst_kb as int), "drop"@, "flowid"@, ":1"@],
        ),
        KernelOp::FilterAddCgroup => Some(
            seq!["tc"@, "filter"@, "add"@, "dev"@, interface, "parent"@, "1:"@, "handle"@,
                "1:"@, "cgroup"@],
        ),
        KernelOp::FilterDelPrio { prio } => Some(
            seq!["tc"@, "filter"@, "del"@, "dev"@, interface, "prio"@,
                dec_digits(prio as int)],
        ),
        KernelOp::FilterAddEgressPortPolice { prio, port, kbps, burst_kb } => Some(
            seq!["tc"@, "filter"@, "add"@, "dev"@, interface, "parent"@, "1:"@, "protocol"@,
                "ip"@, "prio"@, dec_digits(prio as int), "basic"@, "match"@, "'cmp(u16"@,
                "at"@, "0"@, "layer"@, "transport"@, "eq"@, spec_port_match_arg(port as int),
                "action"@, "police"@, "rate"@, spec_rate_arg(kbps as int), "burst"@,
                spec_burst_arg(burst_kb as int)],
        ),
        KernelOp::FilterAddIngressPortPolice { prio, port, kbps, burst_kb } => Some(
            seq!["tc"@, "filter"@, "add"@, "dev"@, interface, "ingress"@, "protocol"@,
                "ip"@, "prio"@, dec_digits(prio as int), "basic"@, "match"@, "'cmp(u16"@,
                "at"@, "2"@, "layer"@, "transport"@, "eq"@, spec_port_match_arg(port as int),
                "action"@, "police"@, "rate"@, spec_rate_arg(kbps as int), "burst"@,
                spec_burst_arg(burst_kb as int)],
        ),
        KernelOp::ClassDel { classid } => Some(
            seq!["tc"@, "class"@, "del"@, "dev"@, interface, "classid"@,
                spec_classid_arg(classid as int)],
        ),
        KernelOp::ClassAddHtb { classid, kbps } => Some(
            seq!["tc"@, "class"@, "add"@, "dev"@, interface, "parent"@, "1:"@, "classid"@,
                spec_classid_arg(classid as int), "htb"@, "rate"@,
                spec_rate_arg(kbps as int)],
        ),
        KernelOp::CgroupCreate { pid } => Some(
            seq!["cgcreate"@, "-g"@, spec_cgroup_name(pid as int)],
        ),
        KernelOp::CgroupWriteClassid { pid: _, classid: _ } => None,
        KernelOp::CgroupClassifyPid { pid } => Some(
            seq!["cgclassify"@, "-g"@, spec_cgroup_name(pid as int), dec_digits(pid as int)],
        ),
    }
}

/// See `spec_command_argv`: the argument vector to run for one kernel
/// operation, or nothing for the classid file write, which the caller
/// performs with `cgroup_classid_path` and `classid_value_text`.
pub fn command_argv(op: &KernelOp, interface: &str) -> (r: Option<Vec<String>>)
    ensures
        match r {
            Some(v) => spec_command_argv(*op, interface@) matches Some(sv)
                && v.deep_view() == sv,
            None => spec_command_argv(*op, interface@) is None,
        },
{
    let mut v: Vec<String> = Vec::new();
    match op {
        KernelOp::QdiscDelRoot => {
            v.push(String::from_str("tc"));
            v.push(String::from_str("qdisc"));
            v.push(String::from_str("del"));
            v.push(String::from_str("dev"));
            v.push(String::from_str(interface));
            v.push(String::from_str("root"));
        },
        KernelOp::QdiscDelIngress => {
            v.push(String::from_str("tc"));
            v.push(String::from_str("qdisc"));
            v.push(String::from_str("del"));
            v.push(String::from_str("dev"));
            v.push(String::from_str(interface));
            v.push(String::from_str("ingress"));
        },
        KernelOp::QdiscAddRootHtb => {
            v.push(String::from_str("tc"));
            v.push(String::from_str("qdisc"));
            v.push(String::from_str("add"));
            v.push(String::from_str("dev"));
            v.push(String::from_str(interface));
            v.push(String::from_str("root"));
            v.push(String::from_str("handle"));
            v.push(String::from_str("1:"));
            v.push(String::from_str("htb"));
        },
        KernelOp::QdiscAddIngress => {
            v.push(String::from_str("tc"));
            v.push(String::from_str("qdisc"));
            v.push(String::from_str("add"));
            v.push(String::from_str("dev"));
            v.push(String::from_str(interface));
            v.push(String::from_str("ingress"));
        },
        KernelOp::FilterAddIngressPolice { kbps, burst_kb } => {
            v.push(String::from_str("tc"));
            v.push(String::from_str("filter"));
            v.push(String::from_str("add"));
            v.push(String::from_str("dev"));
            v.push(String::from_str(interface));
            v.push(String::from_str("parent"));
            v.push(String::from_str("ffff:"));
            v.push(String::from_str("protocol"));
            v.push(String::from_str("ip"));
            v.push(String::from_str("u32"));
            v.push(String::from_str("match"));
            v.push(String::from_str("u32"));
            v.push(String::from_str("0"));
            v.push(String::from_str("0"));
            v.push(String::from_str("police"));
            v.push(String::from_str("rate"));
            v.push(rate_arg(*kbps));
            v.push(String::from_str("burst"));
            v.push(burst_arg(*burst_kb));
            v.push(String::from_str("drop"));
            v.push(String::from_str("flowid"));
            v.push(String::from_str(":1"));
        },
        KernelOp::FilterAddCgroup => {
            v.push(String::from_str("tc"));
            v.push(String::from_str("filter"));
            v.push(String::from_str("add"));
            v.push(String::from_str("dev"));
            v.push(String::from_str(interface));
            v.push(String::from_str("parent"));
            v.push(String::from_str("1:"));
            v.push(String::from_str("handle"));
            v.push(String::from_str("1:"));
            v.push(String::from_str("cgroup"));
        },
        KernelOp::FilterDelPrio { prio } => {
            v.push(String::from_str("tc"));
            v.push(String::from_str("filter"));
            v.push(String::from_str("del"));
            v.push(String::from_str("dev"));
            v.push(String::from_str(interface));
            v.push(String::from_str("prio"));
            v.push(dec_string(*prio as u128));
        },
        KernelOp::FilterAddEgressPortPolice { prio, port, kbps, burst_kb } => {
            v.push(String::from_str("tc"));
            v.push(String::from_str("filter"));
            v.push(String::from_str("add"));
            v.push(String::from_str("dev"));
            v.push(String::from_str(interface));
            v.push(String::from_str("parent"));
            v.push(String::from_str("1:"));
            v.push(String::from_str("protocol"));
            v.push(String::from_str("ip"));
            v.push(String::from_str("prio"));
            v.push(dec_string(*prio as u128));
            v.push(String::from_str("basic"));
            v.push(String::from_str("match"));
            v.push(String::from_str("'cmp(u16"));
            v.push(String::from_str("at"));
            v.push(String::from_str("0"));
            v.push(String::from_str("layer"));
            v.push(String::from_str("transport"));
            v.push(String::from_str("eq"));
            v.push(port_match_arg(*port));
            v.push(String::from_str("action"));
            v.push(String::from_str("police"));
            v.push(String::from_str("rate"));
            v.push(rate_arg(*kbps));
            v.push(String::from_str("burst"));
            v.push(burst_arg(*burst_kb));
        },
        KernelOp::FilterAddIngressPortPolice { prio, port, kbps, burst_kb } => {
            v.push(String::from_str("tc"));
            v.push(String::from_str("filter"));
            v.push(String::from_str("add"));
            v.push(String::from_str("dev"));
            v.push(String::from_str(interface));
            v.push(String::from_str("ingress"));
            v.push(String::from_str("protocol"));
            v.push(String::from_str("ip"));
            v.push(String::from_str("prio"));
            v.push(dec_string(*prio as u128));
            v.push(String::from_str("basic"));
            v.push(String::from_str("match"));
            v.push(String::from_str("'cmp(u16"));
            v.push(String::from_str("at"));
            v.push(String::from_str("2"));
            v.push(String::from_str("layer"));
            v.push(String::from_str("transport"));
            v.push(String::from_str("eq"));
            v.push(port_match_arg(*port));
            v.push(String::from_str("action"));
            v.push(String::from_str("police"));
            v.push(String::from_str("rate"));
            v.push(rate_arg(*kbps));
            v.push(String::from_str("burst"));
            v.push(burst_arg(*burst_kb));
        },
        KernelOp::ClassDel { classid } => {
            v.push(String::from_str("tc"));
            v.push(String::from_str("class"));
            v.push(String::from_str("del"));
            v.push(String::from_str("dev"));
            v.push(String::from_str(interface));
            v.push(String::from_str("classid"));
            v.push(classid_arg(*classid));
        },
        KernelOp::ClassAddHtb { classid, kbps } => {
            v.push(String::from_str("tc"));
            v.push(String::from_str("class"));
            v.push(String::from_str("add"));
            v.push(String::from_str("dev"));
            v.push(String::from_str(interface));
            v.push(String::from_str("parent"));
            v.push(String::from_str("1:"));
            v.push(String::from_str("classid"));
            v.push(classid_arg(*classid));
            v.push(String::from_str("htb"));
            v.push(String::from_str("rate"));
            v.push(rate_arg(*kbps));
        },
        KernelOp::CgroupCreate { pid } => {
            v.push(String::from_str("cgcreate"));
            v.push(String::from_str("-g"));
            v.push(cgroup_name(*pid));
        },
        KernelOp::CgroupWriteClassid { pid: _, classid: _ } => {
            return None;
        },
        KernelOp::CgroupClassifyPid { pid } => {
            v.push(String::from_str("cgclassify"));
            v.push(String::from_str("-g"));
            v.push(cgroup_name(*pid));
            v.push(dec_string(*pid as u128));
        },
    }
    proof {
        assert(v.deep_view() =~~= spec_command_argv(*op, interface@).unwrap());
    }
    Some(v)
}

} // verus!
