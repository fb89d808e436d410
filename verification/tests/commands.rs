use sniffnet_core::CoreError;
use sniffnet_core::controller::{ControlCommand, ControlResult, CoreController};
use sniffnet_core::flow::{IpAddress, TrafficDirection, TransProtocol};
use sniffnet_core::flow_table::ReportSortType;
use sniffnet_core::capture::Filters;
use sniffnet_core::report::ReportView;
use sniffnet_core::traffic_control::{IngressThrottleConfig, KernelOp, ThrottlingTarget,
    TrafficControl};

fn started(facilities: bool) -> CoreController {
    let mut core = CoreController::new(facilities);
    core.handle_command(
        &ControlCommand::StartCapture {
            interface: String::from("eth0"),
            port_low: 0,
            port_high: 65535,
            ingress_throttle: None,
        },
        true,
    )
    .unwrap();
    core
}

fn observe_flow(core: &mut CoreController, src_port: u16, bytes: u64, index_hint: u16) {
    let key = sniffnet_core::flow::FlowKey {
        src_addr: IpAddress::V4(u32::from_be_bytes([10, 0, 0, index_hint as u8])),
        src_port,
        dst_addr: IpAddress::V4(u32::from_be_bytes([10, 0, 1, 1])),
        dst_port: 9,
        transport: TransProtocol::TCP,
    };
    core.table
        .observe(key, bytes, 1, TransProtocol::TCP, TrafficDirection::Outgoing, 1)
        .unwrap();
}

#[test]
fn double_stop_command_returns_ok_twice() {
    let mut core = started(true);
    assert!(matches!(core.handle_command(&ControlCommand::StopCapture, true),
        Ok(ControlResult::Done)));
    assert!(!core.capturing);
    assert!(matches!(core.handle_command(&ControlCommand::StopCapture, true),
        Ok(ControlResult::Done)));
    assert!(!core.capturing);
}

#[test]
fn clear_flows_command_empties_the_table() {
    let mut core = started(true);
    observe_flow(&mut core, 80, 100, 1);
    assert_eq!(core.table.len(), 1);
    core.handle_command(&ControlCommand::ClearFlows, true).unwrap();
    assert_eq!(core.table.len(), 0);
}

#[test]
fn throttle_commands_travel_through_the_dispatcher() {
    let mut core = started(true);
    let cmd = ControlCommand::ThrottlePid { pid: 42, kilobytes_per_second: 100 };
    let plan = core.command_kernel_plan(&cmd);
    // Construction work first, then the cgroup and class commands.
    assert!(plan.iter().any(|c| c.op == KernelOp::QdiscAddRootHtb));
    assert!(plan.iter().any(|c| c.op == KernelOp::CgroupCreate { pid: 42 }));
    assert!(matches!(core.handle_command(&cmd, true), Ok(ControlResult::Done)));
    let tc = core.traffic_control.as_ref().unwrap();
    assert!(tc.identifiers_table.iter().any(|e| e.0 == ThrottlingTarget::Pid(42)));

    let undo = ControlCommand::UnthrottlePid { pid: 42 };
    let undo_plan = core.command_kernel_plan(&undo);
    assert_eq!(undo_plan.len(), 1);
    assert!(matches!(core.handle_command(&undo, true), Ok(ControlResult::Done)));
    let tc = core.traffic_control.as_ref().unwrap();
    assert!(tc.identifiers_table.is_empty());
}

#[test]
fn failed_kernel_plan_records_nothing() {
    let mut core = started(true);
    let cmd = ControlCommand::ThrottlePort { port: 8080, kilobytes_per_second: 50,
        burst_kb: None };
    let _plan = core.command_kernel_plan(&cmd);
    assert_eq!(core.handle_command(&cmd, false),
        Err(CoreError::ControlInvocationFailed));
    let tc = core.traffic_control.as_ref().unwrap();
    assert!(tc.identifiers_table.is_empty());
}

#[test]
fn unthrottle_of_nothing_is_ok_through_the_dispatcher() {
    let mut core = started(true);
    let cmd = ControlCommand::UnthrottlePort { port: 9 };
    assert!(core.command_kernel_plan(&cmd).is_empty());
    assert!(matches!(core.handle_command(&cmd, true), Ok(ControlResult::Done)));
}

#[test]
fn missing_facilities_refuse_throttling_with_the_prerequisite_kind() {
    let mut core = started(false);
    let cmd = ControlCommand::ThrottlePid { pid: 7, kilobytes_per_second: 100 };
    let _plan = core.command_kernel_plan(&cmd);
    assert_eq!(core.handle_command(&cmd, true),
        Err(CoreError::ControlPrerequisiteMissing));
    let tc = core.traffic_control.as_ref().unwrap();
    assert!(tc.identifiers_table.is_empty());

    let cmd = ControlCommand::ThrottlePort { port: 80, kilobytes_per_second: 10,
        burst_kb: Some(16) };
    assert_eq!(core.handle_command(&cmd, true),
        Err(CoreError::ControlPrerequisiteMissing));
}

#[test]
fn missing_facilities_refuse_direct_throttles_too() {
    let (mut tc, setup) = TrafficControl::new(String::from("eth0"),
        Some(IngressThrottleConfig { kbps: 100, burst_kb: 32 }), false);
    // The interface-wide policer is withheld from the plan.
    assert!(setup.iter().all(|c| !matches!(c.op,
        KernelOp::FilterAddIngressPolice { .. })));
    assert_eq!(tc.throttle_pid_commands(7, 100),
        Err(CoreError::ControlPrerequisiteMissing));
    assert_eq!(tc.throttle_pid(7, 100, true),
        Err(CoreError::ControlPrerequisiteMissing));
    assert_eq!(tc.throttle_port_commands(80, 10, None),
        Err(CoreError::ControlPrerequisiteMissing));
    assert_eq!(tc.throttle_port(80, 10, None, true),
        Err(CoreError::ControlPrerequisiteMissing));
    assert!(tc.identifiers_table.is_empty());
    assert_eq!(tc.identifier_counter, 1);
}

#[test]
fn unsupported_ingress_request_refuses_the_start() {
    let mut core = CoreController::new(false);
    let r = core.handle_command(
        &ControlCommand::StartCapture {
            interface: String::from("eth0"),
            port_low: 0,
            port_high: 65535,
            ingress_throttle: Some(IngressThrottleConfig { kbps: 100, burst_kb: 32 }),
        },
        true,
    );
    assert_eq!(r, Err(CoreError::ControlPrerequisiteMissing));
    assert!(!core.capturing);
}

#[test]
fn snapshot_command_returns_the_detailed_page() {
    let mut core = started(true);
    for (i, bytes) in [900u64, 500, 1500, 700].iter().enumerate() {
        observe_flow(&mut core, 1000 + i as u16, *bytes, i as u16 + 1);
    }
    let cmd = ControlCommand::Snapshot {
        view: ReportView::Detailed,
        filter: Filters { lowest_port: 0, highest_port: 65535 },
        sort: ReportSortType::MostBytes,
        page: 1,
    };
    match core.handle_command(&cmd, true).unwrap() {
        ControlResult::Flows(rows, total) => {
            assert_eq!(total, 4);
            let got: Vec<u128> = rows.iter().map(|r| r.1.transmitted_bytes).collect();
            assert_eq!(got, vec![1500, 900, 700, 500]);
        }
        _ => panic!("expected the detailed rows"),
    }
}

#[test]
fn snapshot_command_rolls_up_by_process() {
    let mut core = started(true);
    observe_flow(&mut core, 80, 100, 1);
    let key = core.table.entries[0].0;
    core.table.attach_owner(&key, 1000, &vec![42]);
    let cmd = ControlCommand::Snapshot {
        view: ReportView::Process,
        filter: Filters { lowest_port: 0, highest_port: 65535 },
        sort: ReportSortType::MostBytes,
        page: 1,
    };
    match core.handle_command(&cmd, true).unwrap() {
        ControlResult::Processes(rows) => {
            assert_eq!(rows.len(), 1);
            assert_eq!(rows[0].pid, 42);
            assert_eq!(rows[0].total_sent_bytes, 100);
        }
        _ => panic!("expected the process buckets"),
    }
}

#[test]
fn snapshot_command_rolls_up_by_port_and_user_sorted() {
    let mut core = started(true);
    observe_flow(&mut core, 80, 100, 1);
    observe_flow(&mut core, 81, 900, 2);
    let cmd = ControlCommand::Snapshot {
        view: ReportView::Port,
        filter: Filters { lowest_port: 0, highest_port: 65535 },
        sort: ReportSortType::MostBytes,
        page: 1,
    };
    match core.handle_command(&cmd, true).unwrap() {
        ControlResult::Ports(rows) => {
            let ports: Vec<u16> = rows.iter().map(|r| r.port).collect();
            assert_eq!(ports, vec![81, 80]);
        }
        _ => panic!("expected the port buckets"),
    }
    let cmd = ControlCommand::Snapshot {
        view: ReportView::User,
        filter: Filters { lowest_port: 0, highest_port: 65535 },
        sort: ReportSortType::MostBytes,
        page: 1,
    };
    match core.handle_command(&cmd, true).unwrap() {
        ControlResult::Users(rows) => {
            assert_eq!(rows.len(), 1);
            assert_eq!(rows[0].uid, u32::MAX);
        }
        _ => panic!("expected the user buckets"),
    }
}
