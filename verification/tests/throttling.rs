use sniffnet_core::controller::CoreController;
use sniffnet_core::kernel_model::KernelModel;
use sniffnet_core::traffic_control::{IngressThrottleConfig, ThrottlingTarget, TrafficControl};

fn fresh_controller() -> (TrafficControl, Vec<sniffnet_core::traffic_control::KernelCommand>) {
    TrafficControl::new(String::from("eth0"), None, true)
}

#[test]
fn throttle_then_unthrottle_forgets_the_pid() {
    let (mut tc, _setup) = fresh_controller();
    let _plan = tc.throttle_pid_commands(1234, 200).unwrap();
    tc.throttle_pid(1234, 200, true).unwrap();
    assert!(tc.pid_is_throttled(1234));
    let _undo = tc.unthrottle_pid_commands(1234);
    tc.unthrottle_pid(1234, true).unwrap();
    assert!(!tc.pid_is_throttled(1234));
    assert!(tc.identifiers_table.iter().all(|e| e.0 != ThrottlingTarget::Pid(1234)));
}

#[test]
fn rethrottle_replaces_the_class_rate() {
    let (mut tc, setup) = fresh_controller();
    let mut kernel = KernelModel::new();
    kernel.apply_all(&setup);

    let plan1 = tc.throttle_pid_commands(77, 100).unwrap();
    kernel.apply_all(&plan1);
    tc.throttle_pid(77, 100, true).unwrap();
    let id = tc.identifiers_table.iter()
        .find(|e| e.0 == ThrottlingTarget::Pid(77)).unwrap().1;
    assert_eq!(kernel.class_rate(id), Some(100));

    let plan2 = tc.throttle_pid_commands(77, 250).unwrap();
    kernel.apply_all(&plan2);
    tc.throttle_pid(77, 250, true).unwrap();
    let id2 = tc.identifiers_table.iter()
        .find(|e| e.0 == ThrottlingTarget::Pid(77)).unwrap().1;
    assert_eq!(id2, id);
    // Exactly one class stands for the process's classid, at the new rate.
    assert_eq!(kernel.class_rate(id), Some(250));
    assert_eq!(kernel.classes.iter().filter(|c| c.0 == id).count(), 1);
}

#[test]
fn double_throttle_port_advances_the_counter_by_two() {
    let (mut tc, _setup) = fresh_controller();
    let c0 = tc.identifier_counter;

    let _plan1 = tc.throttle_port_commands(8080, 100, None).unwrap();
    tc.throttle_port(8080, 100, None, true).unwrap();
    let _plan2 = tc.throttle_port_commands(8080, 100, None).unwrap();
    tc.throttle_port(8080, 100, None, true).unwrap();

    assert!(tc.port_is_throttled(8080));
    let egress: Vec<_> = tc.identifiers_table.iter()
        .filter(|e| e.0 == ThrottlingTarget::PortEgress(8080)).collect();
    let ingress: Vec<_> = tc.identifiers_table.iter()
        .filter(|e| e.0 == ThrottlingTarget::PortIngress(8080)).collect();
    assert_eq!(egress.len(), 1);
    assert_eq!(ingress.len(), 1);
    assert_eq!(tc.identifier_counter, c0 + 2);
}

#[test]
fn unthrottle_port_removes_both_directions() {
    let (mut tc, _setup) = fresh_controller();
    let _ = tc.throttle_port_commands(443, 50, Some(128)).unwrap();
    tc.throttle_port(443, 50, Some(128), true).unwrap();
    assert!(tc.port_is_throttled(443));
    let undo = tc.unthrottle_port_commands(443);
    assert_eq!(undo.len(), 2);
    tc.unthrottle_port(443, true).unwrap();
    assert!(!tc.port_is_throttled(443));
    assert!(tc.identifiers_table.is_empty());
}

#[test]
fn unthrottle_of_untracked_port_is_a_successful_no_op() {
    let (mut tc, _setup) = fresh_controller();
    let undo = tc.unthrottle_port_commands(9999);
    assert!(undo.is_empty());
    assert!(tc.unthrottle_port(9999, true).is_ok());
    assert!(tc.unthrottle_pid(4321, false).is_ok());
}

#[test]
fn failed_throttle_leaves_existing_throttles_intact() {
    let (mut tc, _setup) = fresh_controller();
    let _ = tc.throttle_pid_commands(10, 100).unwrap();
    tc.throttle_pid(10, 100, true).unwrap();
    let before = tc.identifiers_table.clone();
    let c0 = tc.identifier_counter;
    // A mandatory command failed: nothing may be recorded.
    assert_eq!(tc.throttle_pid(11, 100, false),
        Err(sniffnet_core::CoreError::ControlInvocationFailed));
    assert_eq!(tc.throttle_port(12, 100, None, false),
        Err(sniffnet_core::CoreError::ControlInvocationFailed));
    assert_eq!(tc.identifiers_table, before);
    assert_eq!(tc.identifier_counter, c0);
    assert!(tc.pid_is_throttled(10));
}

#[test]
fn construction_then_teardown_leaves_no_qdiscs() {
    let (tc, setup) = TrafficControl::new(String::from("eth1"),
        Some(IngressThrottleConfig { kbps: 1000, burst_kb: 64 }), true);
    let mut kernel = KernelModel::new();
    kernel.apply_all(&setup);
    assert!(kernel.root_qdisc);
    assert!(kernel.ingress_qdisc);
    kernel.apply_all(&tc.teardown_commands());
    assert!(!kernel.root_qdisc);
    assert!(!kernel.ingress_qdisc);
    assert!(kernel.classes.is_empty());
}

#[test]
fn throttle_then_drop_leaves_clean_kernel_and_fresh_table() {
    let (mut tc, setup) = fresh_controller();
    let mut kernel = KernelModel::new();
    kernel.apply_all(&setup);
    let plan = tc.throttle_pid_commands(1234, 200).unwrap();
    kernel.apply_all(&plan);
    tc.throttle_pid(1234, 200, true).unwrap();
    kernel.apply_all(&tc.teardown_commands());
    assert!(!kernel.root_qdisc);
    assert!(!kernel.ingress_qdisc);
    assert!(kernel.classes.is_empty());
    // A re-instantiated controller starts with an empty table.
    let (tc2, _setup2) = fresh_controller();
    assert!(tc2.identifiers_table.is_empty());
}

#[test]
fn cgroup_bookkeeping_follows_the_plan() {
    let (mut tc, setup) = fresh_controller();
    let mut kernel = KernelModel::new();
    kernel.apply_all(&setup);
    let plan = tc.throttle_pid_commands(55, 10).unwrap();
    // A first-time process gets its control group before its class.
    assert_eq!(plan.len(), 5);
    kernel.apply_all(&plan);
    tc.throttle_pid(55, 10, true).unwrap();
    let id = tc.identifiers_table[0].1;
    assert_eq!(kernel.cgroup_classids, vec![(55, id)]);
    // Rethrottling an already tracked process needs no cgroup work.
    let plan2 = tc.throttle_pid_commands(55, 20).unwrap();
    assert_eq!(plan2.len(), 2);
}

#[test]
fn double_stop_capture_is_ok() {
    let mut core = CoreController::new(true);
    core.start_capture(String::from("eth0"), 0, 65535, None);
    assert!(core.capturing);
    assert!(core.stop_capture().is_ok());
    assert!(!core.capturing);
    assert!(core.stop_capture().is_ok());
    assert!(!core.capturing);
}

#[test]
fn traffic_control_is_built_once() {
    let mut core = CoreController::new(true);
    core.start_capture(String::from("eth0"), 0, 65535, None);
    let plan = core.ensure_traffic_control();
    assert!(!plan.is_empty());
    let again = core.ensure_traffic_control();
    assert!(again.is_empty());
    let teardown = core.shutdown();
    assert_eq!(teardown.len(), 2);
    assert!(core.traffic_control.is_none());
    // Nothing left to tear down on a second shutdown.
    assert!(core.shutdown().is_empty());
}
