//! The core controller: owns the flow table, the capture state and the
//! traffic-control manager, and mediates the commands of the
//! surrounding application. Work that only the host can do — reading
//! frames, enumerating sockets, probing for kernel facilities, running
//! kernel commands — happens outside; the controller hands out the
//! plans and records the outcomes.
//!
//! A command that programs the kernel is served in two steps: the
//! caller takes its plan from `command_kernel_plan`, runs it, and
//! hands the outcome to `handle_command` for the same command, which
//! records it. Every other command takes effect in `handle_command`
//! alone, with an empty plan.

use vstd::prelude::*;

use crate::CoreError;
use crate::assoc::{al_has, al_insert, al_remove};
use crate::capture::{Filters, current_unix_time, decode_frame, decoded_frame,
    spec_process_packet};
use crate::flow::{FlowKey, FlowStats, IpAddress, TransProtocol};
use crate::flow_table::{FlowTable, ReportSortType, filtered_entries, page_end, page_len,
    page_start, row_from_table};
use crate::report::{MonitoredPort, MonitoredProcess, MonitoredUser, ReportView,
    lemma_port_rows_permuted, lemma_process_rows_permuted, lemma_user_rows_permuted,
    pid_present, port_present, port_row_exact, process_row_exact, rollup_by_port,
    rollup_by_process, rollup_by_user, rows_have_pid, rows_have_port, rows_have_uid,
    totals_for_pid, totals_for_port, totals_for_uid, totals_overflow, uid_present,
    user_row_exact};
use crate::resolver::{SocketEntry, TransportQuery, entry_matches, resolve_owner};
use crate::sort::{sort_rows, sorted_rows};
use crate::traffic_control::{IngressThrottleConfig, KernelCommand, ThrottlingTarget,
    TrafficControl, pid_identifier, pid_needs_fresh, port_egress_id, port_fresh_count,
    port_ingress_id, spec_setup_plan, spec_teardown_plan, spec_throttle_pid_plan,
    spec_throttle_port_plan, spec_unthrottle_pid_plan, spec_unthrottle_port_plan};

verus! {

/// A request of the surrounding application, as delivered on the
/// command interface.
pub enum ControlCommand {
    StartCapture {
        interface: String,
        port_low: u16,
        port_high: u16,
        ingress_throttle: Option<IngressThrottleConfig>,
    },
    StopCapture,
    ClearFlows,
    Snapshot { view: ReportView, filter: Filters, sort: ReportSortType, page: usize },
    ThrottlePid { pid: u32, kilobytes_per_second: usize },
    ThrottlePort { port: u16, kilobytes_per_second: usize, burst_kb: Option<usize> },
    UnthrottlePid { pid: u32 },
    UnthrottlePort { port: u16 },
}

/// The payload of a successful command: nothing, or the requested
/// view's rows.
#[derive(PartialEq, Eq, Debug)]
pub enum ControlResult {
    Done,
    /// A detailed page and the count of all rows passing the filter.
    Flows(Vec<(FlowKey, FlowStats)>, usize),
    Processes(Vec<MonitoredProcess>),
    Ports(Vec<MonitoredPort>),
    Users(Vec<MonitoredUser>),
}

/// The controller owning the core's pieces.
pub struct CoreController {
    pub table: FlowTable,
    pub filters: Filters,
    pub capturing: bool,
    /// The capture interface named at start; the traffic-control
    /// manager is built for it.
    pub interface: String,
    /// An interface-wide ingress limit requested at start, waiting for
    /// the manager's lazy construction.
    pub pending_ingress: Option<IngressThrottleConfig>,
    /// The interface's own addresses, captured at start time.
    pub local_addrs: Vec<IpAddress>,
    /// Built lazily on the first throttling command.
    pub traffic_control: Option<TrafficControl>,
    /// The capability probe's result, supplied at construction:
    /// whether the host offers the net_cls control groups and the
    /// traffic-control stack.
    pub facilities_present: bool,
    /// Frames that could not be decoded: counted, dropped, never fatal.
    pub decode_failures: u64,
}

/// The identifier table as the commands see it: empty until the
/// manager stands.
pub open spec fn tc_table_of(c: CoreController) -> Seq<(ThrottlingTarget, u16)> {
    match c.traffic_control {
        Some(t) => t.identifiers_table@,
        None => Seq::empty(),
    }
}

/// The identifier dispenser as the commands see it: at its starting
/// value until the manager stands.
pub open spec fn tc_counter_of(c: CoreController) -> u16 {
    match c.traffic_control {
        Some(t) => t.identifier_counter,
        None => 1,
    }
}

impl CoreController {
    pub open spec fn wf(self) -> bool {
        &&& self.table.wf()
        &&& match self.traffic_control {
            Some(tc) => tc.wf() && tc.facilities_present == self.facilities_present,
            None => true,
        }
    }

    /// A stopped controller with an empty table and no kernel state,
    /// told by the capability probe whether the host supports
    /// throttling.
    pub fn new(facilities_present: bool) -> (r: CoreController)
        ensures
            r.wf(),
            !r.capturing,
            r.table.entries@.len() == 0,
            r.traffic_control is None,
            r.facilities_present == facilities_present,
            r.pending_ingress is None,
            r.decode_failures == 0,
    {
        CoreController {
            table: FlowTable::new(),
            filters: Filters { lowest_port: 0, highest_port: u16::MAX },
            capturing: false,
            interface: String::new(),
            pending_ingress: None,
            local_addrs: Vec::new(),
            traffic_control: None,
            facilities_present,
            decode_failures: 0,
        }
    }

    /// Record the interface's own addresses, as read from the opened
    /// device.
    pub fn set_local_addresses(&mut self, local_addrs: Vec<IpAddress>)
        requires
            old(self).wf(),
        ensures
            final(self).wf(),
            final(self).local_addrs@ == local_addrs@,
            *final(self) == (CoreController { local_addrs: final(self).local_addrs,
                ..*old(self) }),
    {
        self.local_addrs = local_addrs;
    }

    /// Begin a capture: record the interface, the port window and any
    /// requested interface-wide ingress limit. The device itself is
    /// opened outside; a failed open is followed by `stop_capture`,
    /// which restores the stopped state.
    pub fn start_capture(&mut self, interface: String, port_low: u16, port_high: u16,
        ingress_throttle: Option<IngressThrottleConfig>)
        requires
            old(self).wf(),
        ensures
            final(self).wf(),
            final(self).capturing,
            final(self).filters == (Filters { lowest_port: port_low, highest_port: port_high }),
            final(self).interface@ == interface@,
            final(self).pending_ingress == ingress_throttle,
            final(self).table == old(self).table,
            final(self).local_addrs@ == old(self).local_addrs@,
            final(self).traffic_control == old(self).traffic_control,
            final(self).facilities_present == old(self).facilities_present,
            final(self).decode_failures == old(self).decode_failures,
    {
        self.filters = Filters { lowest_port: port_low, highest_port: port_high };
        self.interface = interface;
        self.pending_ingress = ingress_throttle;
        self.capturing = true;
    }

    /// End a capture. Always succeeds, and succeeds again on a
    /// controller that is already stopped, changing nothing else: a
    /// second stop is a no-op that returns success.
    pub fn stop_capture(&mut self) -> (r: Result<(), CoreError>)
        requires
            old(self).wf(),
        ensures
            final(self).wf(),
            r is Ok,
            *final(self) == spec_stop(*old(self)),
    {
        self.capturing = false;
        Ok(())
    }

    /// Empty the flow table; the ordinal dispenser keeps running.
    pub fn clear_flows(&mut self)
        requires
            old(self).wf(),
        ensures
            final(self).wf(),
            final(self).table.entries@.len() == 0,
            final(self).table.next_index == old(self).table.next_index,
            final(self).capturing == old(self).capturing,
            final(self).traffic_control == old(self).traffic_control,
    {
        self.table.clear();
    }

    /// Feed one raw frame: decode it, stamp it with the wall clock,
    /// and record at most one observation per in-window endpoint. An
    /// undecodable frame is counted and dropped; the count saturates
    /// rather than wrap.
    pub fn ingest_frame(&mut self, frame: &[u8]) -> (r: Result<(), CoreError>)
        requires
            old(self).wf(),
        ensures
            final(self).wf(),
            final(self).capturing == old(self).capturing,
            final(self).traffic_control == old(self).traffic_control,
            final(self).filters == old(self).filters,
            decoded_frame(frame@) is None ==> ({
                &&& r == Result::<(), CoreError>::Err(CoreError::DecodeError)
                &&& final(self).table == old(self).table
                &&& final(self).decode_failures == if old(self).decode_failures < u64::MAX {
                    old(self).decode_failures + 1
                } else {
                    old(self).decode_failures as int
                }
            }),
            decoded_frame(frame@) matches Some(p) ==> ({
                &&& final(self).decode_failures == old(self).decode_failures
                &&& exists|now: u64| ({
                    &&& final(self).table.entries@ == (#[trigger] spec_process_packet(
                        old(self).table.entries@, old(self).table.next_index, p,
                        old(self).filters, now)).0
                    &&& final(self).table.next_index == spec_process_packet(
                        old(self).table.entries@, old(self).table.next_index, p,
                        old(self).filters, now).1
                    &&& r is Ok <==> spec_process_packet(old(self).table.entries@,
                        old(self).table.next_index, p, old(self).filters, now).2
                })
            }),
    {
        match decode_frame(frame) {
            None => {
                if self.decode_failures < u64::MAX {
                    self.decode_failures = self.decode_failures + 1;
                }
                Err(CoreError::DecodeError)
            },
            Some(p) => {
                let now = current_unix_time();
                let filters = self.filters;
                let r = crate::capture::process_packet(&mut self.table, &p, &filters, now);
                proof {
                    let out = spec_process_packet(old(self).table.entries@,
                        old(self).table.next_index, p, old(self).filters, now);
                    assert(self.table.entries@ == out.0 && self.table.next_index == out.1
                        && (r is Ok <==> out.2));
                }
                r
            },
        }
    }

    /// Resolve and attach the owner of the flow keyed by `k` from the
    /// given socket table, querying the flow's transport family for
    /// its source port. No answering socket leaves the flow as it was:
    /// absence degrades to no owner and is not surfaced.
    pub fn attach_owner_from_sockets(&mut self, k: &FlowKey, sockets: &Vec<SocketEntry>)
        requires
            old(self).wf(),
        ensures
            final(self).wf(),
            final(self).capturing == old(self).capturing,
            final(self).traffic_control == old(self).traffic_control,
            final(self).table.next_index == old(self).table.next_index,
            final(self).table.entries@.len() == old(self).table.entries@.len(),
            (forall|j: int| 0 <= j < sockets@.len()
                ==> !entry_matches(transport_query_of(k.transport), k.src_port, sockets@[j]))
                ==> final(self).table == old(self).table,
            !crate::flow_table::has_key(old(self).table.entries@, *k)
                ==> final(self).table.entries@ == old(self).table.entries@,
            crate::flow_table::has_key(old(self).table.entries@, *k)
                && (exists|j: int| 0 <= j < sockets@.len()
                    && entry_matches(transport_query_of(k.transport), k.src_port,
                        #[trigger] sockets@[j])) ==> ({
                let i = crate::flow_table::key_at(old(self).table.entries@, *k);
                let st0 = old(self).table.entries@[i].1;
                let st1 = final(self).table.entries@[i].1;
                &&& final(self).table.entries@ == old(self).table.entries@.update(i, (
                    *k,
                    st1,
                ))
                &&& st1 == (crate::flow::FlowStats { owner: st1.owner, ..st0 })
                &&& exists|w: int| ({
                    &&& 0 <= w < sockets@.len()
                    &&& entry_matches(transport_query_of(k.transport), k.src_port,
                        #[trigger] sockets@[w])
                    &&& forall|j: int| 0 <= j < w ==> !entry_matches(
                        transport_query_of(k.transport), k.src_port, sockets@[j])
                    &&& match (st0.owner, st1.owner) {
                        (Option::None, Option::Some(o1)) => o1.uid == sockets@[w].uid
                            && forall|p: u32| o1.spec_has_pid(p)
                                == sockets@[w].pids@.contains(p),
                        (Option::Some(o0), Option::Some(o1)) => o1.uid == o0.uid
                            && forall|p: u32| o1.spec_has_pid(p)
                                == (o0.spec_has_pid(p) || sockets@[w].pids@.contains(p)),
                        _ => false,
                    }
                })
            }),
    {
        let query = match k.transport {
            TransProtocol::TCP => TransportQuery::Tcp,
            TransProtocol::UDP => TransportQuery::Udp,
            TransProtocol::ICMP => TransportQuery::Both,
            TransProtocol::Other => TransportQuery::Both,
        };
        match resolve_owner(sockets, query, k.src_port) {
            Some(i) => {
                let uid = sockets[i].uid;
                self.table.attach_owner(k, uid, &sockets[i].pids);
            },
            None => {},
        }
    }

    /// Build the traffic-control manager on the first throttling
    /// command and hand back its construction plan; later calls find
    /// it standing and need no further kernel work. A pending
    /// interface-wide ingress limit enters the plan only where the
    /// host's facilities support it.
    pub fn ensure_traffic_control(&mut self) -> (r: Vec<KernelCommand>)
        requires
            old(self).wf(),
        ensures
            final(self).wf(),
            final(self).traffic_control is Some,
            final(self).table == old(self).table,
            final(self).capturing == old(self).capturing,
            final(self).filters == old(self).filters,
            final(self).interface@ == old(self).interface@,
            final(self).pending_ingress == old(self).pending_ingress,
            final(self).facilities_present == old(self).facilities_present,
            final(self).decode_failures == old(self).decode_failures,
            final(self).local_addrs@ == old(self).local_addrs@,
            old(self).traffic_control is Some ==> final(self).traffic_control
                == old(self).traffic_control && r@ == Seq::<KernelCommand>::empty(),
            old(self).traffic_control is None ==> ({
                &&& r@ == spec_setup_plan(
                    if old(self).facilities_present {
                        old(self).pending_ingress
                    } else {
                        None
                    },
                )
                &&& final(self).traffic_control matches Some(tc)
                    && tc.identifiers_table@.len() == 0 && tc.identifier_counter == 1
                    && tc.interface@ == old(self).interface@
            }),
    {
        match &self.traffic_control {
            Some(_) => Vec::new(),
            None => {
                let (tc, plan) = TrafficControl::new(self.interface.clone(),
                    self.pending_ingress, self.facilities_present);
                self.traffic_control = Some(tc);
                plan
            },
        }
    }

    /// The kernel plan of one command: construction work where the
    /// manager must first be built, then the operation's own commands;
    /// a command touching no kernel object has an empty plan. The
    /// caller runs the plan and hands the outcome to `handle_command`
    /// for the same command, which records it.
    pub fn command_kernel_plan(&mut self, cmd: &ControlCommand) -> (r: Vec<KernelCommand>)
        requires
            old(self).wf(),
        ensures
            final(self).wf(),
            final(self).table == old(self).table,
            final(self).capturing == old(self).capturing,
            final(self).filters == old(self).filters,
            final(self).interface@ == old(self).interface@,
            final(self).pending_ingress == old(self).pending_ingress,
            final(self).facilities_present == old(self).facilities_present,
            final(self).decode_failures == old(self).decode_failures,
            final(self).local_addrs@ == old(self).local_addrs@,
            tc_table_of(*final(self)) == tc_table_of(*old(self)),
            tc_counter_of(*final(self)) == tc_counter_of(*old(self)),
            !(cmd is ThrottlePid || cmd is ThrottlePort) ==> final(self).traffic_control
                == old(self).traffic_control,
            cmd matches ControlCommand::ThrottlePid { pid, kilobytes_per_second } ==> ({
                let s = tc_table_of(*old(self));
                let c = tc_counter_of(*old(self));
                let setup = if old(self).traffic_control is None {
                    spec_setup_plan(
                        if old(self).facilities_present {
                            old(self).pending_ingress
                        } else {
                            None
                        },
                    )
                } else {
                    Seq::<KernelCommand>::empty()
                };
                if old(self).facilities_present && !(pid_needs_fresh(s, *pid)
                    && c == u16::MAX) {
                    r@ == setup + spec_throttle_pid_plan(s, c, *pid, *kilobytes_per_second)
                } else {
                    r@ == setup
                }
            }),
            cmd matches ControlCommand::ThrottlePort { port, kilobytes_per_second, burst_kb }
                ==> ({
                let s = tc_table_of(*old(self));
                let c = tc_counter_of(*old(self));
                let setup = if old(self).traffic_control is None {
                    spec_setup_plan(
                        if old(self).facilities_present {
                            old(self).pending_ingress
                        } else {
                            None
                        },
                    )
                } else {
                    Seq::<KernelCommand>::empty()
                };
                if old(self).facilities_present && c + port_fresh_count(s, *port)
                    <= u16::MAX {
                    r@ == setup + spec_throttle_port_plan(s, c, *port, *kilobytes_per_second,
                        crate::traffic_control::burst_or_default(*burst_kb))
                } else {
                    r@ == setup
                }
            }),
            cmd matches ControlCommand::UnthrottlePid { pid }
                ==> r@ == spec_unthrottle_pid_plan(tc_table_of(*old(self)), *pid),
            cmd matches ControlCommand::UnthrottlePort { port }
                ==> r@ == spec_unthrottle_port_plan(tc_table_of(*old(self)), *port),
            !(cmd is ThrottlePid || cmd is ThrottlePort || cmd is UnthrottlePid
                || cmd is UnthrottlePort) ==> r@ == Seq::<KernelCommand>::empty(),
    {
        match cmd {
            ControlCommand::ThrottlePid { pid, kilobytes_per_second } => {
                let mut plan = self.ensure_traffic_control();
                match &self.traffic_control {
                    Some(t) => {
                        match t.throttle_pid_commands(*pid, *kilobytes_per_second) {
                            Ok(mut ops) => {
                                plan.append(&mut ops);
                            },
                            Err(_) => {},
                        }
                    },
                    None => {},
                }
                plan
            },
            ControlCommand::ThrottlePort { port, kilobytes_per_second, burst_kb } => {
                let mut plan = self.ensure_traffic_control();
                match &self.traffic_control {
                    Some(t) => {
                        match t.throttle_port_commands(*port, *kilobytes_per_second,
                            *burst_kb) {
                            Ok(mut ops) => {
                                plan.append(&mut ops);
                            },
                            Err(_) => {},
                        }
                    },
                    None => {},
                }
                plan
            },
            ControlCommand::UnthrottlePid { pid } => {
                match &self.traffic_control {
                    Some(t) => t.unthrottle_pid_commands(*pid),
                    None => {
                        let plan: Vec<KernelCommand> = Vec::new();
                        proof {
                            assert(plan@ =~= spec_unthrottle_pid_plan(tc_table_of(*self),
                                *pid));
                        }
                        plan
                    },
                }
            },
            ControlCommand::UnthrottlePort { port } => {
                match &self.traffic_control {
                    Some(t) => t.unthrottle_port_commands(*port),
                    None => {
                        let plan: Vec<KernelCommand> = Vec::new();
                        proof {
                            assert(plan@ =~= spec_unthrottle_port_plan(tc_table_of(*self),
                                *port));
                        }
                        plan
                    },
                }
            },
            _ => Vec::new(),
        }
    }

    /// Dispatch one command and reply, recording for the kernel
    /// commands whether their plan's mandatory commands all succeeded.
    /// A request enum variant maps to the method of the same meaning;
    /// a throttle whose plan failed, or whose prerequisites the host
    /// lacks, records nothing.
    pub fn handle_command(&mut self, cmd: &ControlCommand, kernel_applied: bool)
        -> (r: Result<ControlResult, CoreError>)
        requires
            old(self).wf(),
            cmd matches ControlCommand::Snapshot { page, .. } ==> *page >= 1,
        ensures
            final(self).wf(),
            final(self).facilities_present == old(self).facilities_present,
            final(self).local_addrs@ == old(self).local_addrs@,
            final(self).decode_failures == old(self).decode_failures,
            !(cmd is ClearFlows) ==> final(self).table == old(self).table,
            !(cmd is ThrottlePid || cmd is ThrottlePort || cmd is UnthrottlePid
                || cmd is UnthrottlePort) ==> final(self).traffic_control
                == old(self).traffic_control,
            cmd matches ControlCommand::StartCapture { interface, port_low, port_high,
                ingress_throttle } ==> ({
                &&& ((*ingress_throttle) is Some && !old(self).facilities_present) ==> ({
                    &&& r == Result::<ControlResult, CoreError>::Err(
                        CoreError::ControlPrerequisiteMissing)
                    &&& *final(self) == *old(self)
                })
                &&& !((*ingress_throttle) is Some && !old(self).facilities_present) ==> ({
                    &&& r matches Ok(reply) && reply is Done
                    &&& final(self).capturing
                    &&& final(self).filters == (Filters { lowest_port: *port_low,
                        highest_port: *port_high })
                    &&& final(self).interface@ == interface@
                    &&& final(self).pending_ingress == *ingress_throttle
                })
            }),
            cmd is StopCapture ==> ({
                &&& *final(self) == spec_stop(*old(self))
                &&& r matches Ok(reply) && reply is Done
            }),
            cmd is ClearFlows ==> ({
                &&& final(self).table.entries@.len() == 0
                &&& final(self).table.next_index == old(self).table.next_index
                &&& final(self).capturing == old(self).capturing
                &&& r matches Ok(reply) && reply is Done
            }),
            cmd matches ControlCommand::Snapshot { view: ReportView::Detailed, filter, sort,
                page } ==> ({
                &&& r is Ok
                &&& r matches Ok(reply) ==> (reply matches ControlResult::Flows(rows, total)
                    && ({
                    let n = filtered_entries(old(self).table.entries@, *filter).len() as int;
                    &&& total == filtered_entries(old(self).table.entries@, *filter).len()
                    &&& sorted_rows(rows@, *sort)
                    &&& rows@.len() == page_len(n, *page as int)
                    &&& forall|i: int| 0 <= i < rows@.len() ==> row_from_table(
                        #[trigger] rows@[i], old(self).table.entries@, *filter)
                    &&& forall|a: int, b: int| 0 <= a < b < rows@.len()
                        ==> (#[trigger] rows@[a]).1.index != (#[trigger] rows@[b]).1.index
                    &&& exists|full: Seq<(FlowKey, FlowStats)>| ({
                        &&& #[trigger] sorted_rows(full, *sort)
                        &&& full.len() == n
                        &&& forall|i: int| 0 <= i < full.len() ==> row_from_table(
                            #[trigger] full[i], old(self).table.entries@, *filter)
                        &&& forall|a: int, b: int| 0 <= a < b < full.len()
                            ==> (#[trigger] full[a]).1.index != (#[trigger] full[b]).1.index
                        &&& rows@ == full.subrange(page_start(n, *page as int),
                            page_end(n, *page as int))
                    })
                }))
            }),
            cmd matches ControlCommand::Snapshot { view: ReportView::Process, filter, sort,
                page } ==> ({
                &&& r is Ok <==> !(exists|pid: u32| pid_present(old(self).table.entries@,
                    pid) && totals_overflow(totals_for_pid(old(self).table.entries@, pid)))
                &&& r matches Err(e) ==> e == CoreError::Internal
                &&& r matches Ok(reply) ==> (reply matches ControlResult::Processes(rows)
                    && ({
                    &&& sorted_rows(rows@, *sort)
                    &&& forall|i: int| 0 <= i < rows@.len() ==> process_row_exact(
                        #[trigger] rows@[i], old(self).table.entries@)
                    &&& forall|a: int, b: int| 0 <= a < b < rows@.len()
                        ==> (#[trigger] rows@[a]).pid != (#[trigger] rows@[b]).pid
                    &&& forall|pid: u32| #[trigger] pid_present(old(self).table.entries@,
                        pid) <==> rows_have_pid(rows@, pid)
                }))
            }),
            cmd matches ControlCommand::Snapshot { view: ReportView::Port, filter, sort,
                page } ==> ({
                &&& r is Ok <==> !(exists|port: u16| port_present(old(self).table.entries@,
                    port) && totals_overflow(totals_for_port(old(self).table.entries@,
                    port)))
                &&& r matches Err(e) ==> e == CoreError::Internal
                &&& r matches Ok(reply) ==> (reply matches ControlResult::Ports(rows) && ({
                    &&& sorted_rows(rows@, *sort)
                    &&& forall|i: int| 0 <= i < rows@.len() ==> port_row_exact(
                        #[trigger] rows@[i], old(self).table.entries@)
                    &&& forall|a: int, b: int| 0 <= a < b < rows@.len()
                        ==> (#[trigger] rows@[a]).port != (#[trigger] rows@[b]).port
                    &&& forall|port: u16| #[trigger] port_present(old(self).table.entries@,
                        port) <==> rows_have_port(rows@, port)
                }))
            }),
            cmd matches ControlCommand::Snapshot { view: ReportView::User, filter, sort,
                page } ==> ({
                &&& r is Ok <==> !(exists|uid: u32| uid_present(old(self).table.entries@,
                    uid) && totals_overflow(totals_for_uid(old(self).table.entries@, uid)))
                &&& r matches Err(e) ==> e == CoreError::Internal
                &&& r matches Ok(reply) ==> (reply matches ControlResult::Users(rows) && ({
                    &&& sorted_rows(rows@, *sort)
                    &&& forall|i: int| 0 <= i < rows@.len() ==> user_row_exact(
                        #[trigger] rows@[i], old(self).table.entries@)
                    &&& forall|a: int, b: int| 0 <= a < b < rows@.len()
                        ==> (#[trigger] rows@[a]).uid != (#[trigger] rows@[b]).uid
                    &&& forall|uid: u32| #[trigger] uid_present(old(self).table.entries@,
                        uid) <==> rows_have_uid(rows@, uid)
                }))
            }),
            cmd matches ControlCommand::ThrottlePid { pid, kilobytes_per_second } ==> ({
                let s = tc_table_of(*old(self));
                let c = tc_counter_of(*old(self));
                &&& r is Ok <==> old(self).facilities_present && kernel_applied
                    && !(pid_needs_fresh(s, *pid) && c == u16::MAX)
                &&& !old(self).facilities_present ==> r
                    == Result::<ControlResult, CoreError>::Err(
                    CoreError::ControlPrerequisiteMissing)
                &&& r matches Ok(reply) ==> (reply is Done && ({
                    &&& tc_table_of(*final(self)) == al_insert(s,
                        ThrottlingTarget::Pid(*pid), pid_identifier(s, c, *pid))
                    &&& tc_counter_of(*final(self)) == if pid_needs_fresh(s, *pid) {
                        (c + 1) as u16
                    } else {
                        c
                    }
                }))
                &&& r is Err ==> tc_table_of(*final(self)) == s
                    && tc_counter_of(*final(self)) == c
            }),
            cmd matches ControlCommand::ThrottlePort { port, kilobytes_per_second, burst_kb }
                ==> ({
                let s = tc_table_of(*old(self));
                let c = tc_counter_of(*old(self));
                &&& r is Ok <==> old(self).facilities_present && kernel_applied
                    && c + port_fresh_count(s, *port) <= u16::MAX
                &&& !old(self).facilities_present ==> r
                    == Result::<ControlResult, CoreError>::Err(
                    CoreError::ControlPrerequisiteMissing)
                &&& r matches Ok(reply) ==> (reply is Done && ({
                    &&& tc_table_of(*final(self)) == al_insert(
                        al_insert(s, ThrottlingTarget::PortEgress(*port),
                            port_egress_id(s, c, *port)),
                        ThrottlingTarget::PortIngress(*port),
                        port_ingress_id(s, c, *port) as u16,
                    )
                    &&& tc_counter_of(*final(self)) == c + port_fresh_count(s, *port)
                }))
                &&& r is Err ==> tc_table_of(*final(self)) == s
                    && tc_counter_of(*final(self)) == c
            }),
            cmd matches ControlCommand::UnthrottlePid { pid } ==> ({
                let s = tc_table_of(*old(self));
                &&& r is Ok <==> (kernel_applied || !al_has(s,
                    ThrottlingTarget::Pid(*pid)))
                &&& r matches Ok(reply) ==> (reply is Done && tc_table_of(*final(self))
                    == al_remove(s, ThrottlingTarget::Pid(*pid)))
                &&& r is Err ==> r == Result::<ControlResult, CoreError>::Err(
                    CoreError::ControlInvocationFailed) && tc_table_of(*final(self)) == s
                &&& tc_counter_of(*final(self)) == tc_counter_of(*old(self))
            }),
            cmd matches ControlCommand::UnthrottlePort { port } ==> ({
                let s = tc_table_of(*old(self));
                &&& r is Ok <==> (kernel_applied || !(al_has(s,
                    ThrottlingTarget::PortEgress(*port)) && al_has(s,
                    ThrottlingTarget::PortIngress(*port))))
                &&& (r is Ok && al_has(s, ThrottlingTarget::PortEgress(*port)) && al_has(s,
                    ThrottlingTarget::PortIngress(*port))) ==> tc_table_of(*final(self))
                    == al_remove(al_remove(s, ThrottlingTarget::PortEgress(*port)),
                    ThrottlingTarget::PortIngress(*port))
                &&& r is Err ==> r == Result::<ControlResult, CoreError>::Err(
                    CoreError::ControlInvocationFailed) && tc_table_of(*final(self)) == s
                &&& tc_counter_of(*final(self)) == tc_counter_of(*old(self))
            }),
    {
        match cmd {
            ControlCommand::StartCapture { interface, port_low, port_high,
                ingress_throttle } => {
                if ingress_throttle.is_some() && !self.facilities_present {
                    return Err(CoreError::ControlPrerequisiteMissing);
                }
                self.start_capture(interface.clone(), *port_low, *port_high,
                    *ingress_throttle);
                Ok(ControlResult::Done)
            },
            ControlCommand::StopCapture => {
                self.capturing = false;
                Ok(ControlResult::Done)
            },
            ControlCommand::ClearFlows => {
                self.table.clear();
                Ok(ControlResult::Done)
            },
            ControlCommand::Snapshot { view, filter, sort, page } => {
                match view {
                    ReportView::Detailed => {
                        let (rows, total) = self.table.snapshot(filter, *sort, *page);
                        Ok(ControlResult::Flows(rows, total))
                    },
                    ReportView::Process => {
                        match rollup_by_process(&self.table.entries) {
                            Ok(mut rows) => {
                                let ghost unsorted = rows@;
                                sort_rows(*sort, &mut rows);
                                proof {
                                    lemma_process_rows_permuted(rows@, unsorted,
                                        self.table.entries@);
                                }
                                Ok(ControlResult::Processes(rows))
                            },
                            Err(e) => Err(e),
                        }
                    },
                    ReportView::Port => {
                        match rollup_by_port(&self.table.entries) {
                            Ok(mut rows) => {
                                let ghost unsorted = rows@;
                                sort_rows(*sort, &mut rows);
                                proof {
                                    lemma_port_rows_permuted(rows@, unsorted,
                                        self.table.entries@);
                                }
                                Ok(ControlResult::Ports(rows))
                            },
                            Err(e) => Err(e),
                        }
                    },
                    ReportView::User => {
                        match rollup_by_user(&self.table.entries) {
                            Ok(mut rows) => {
                                let ghost unsorted = rows@;
                                sort_rows(*sort, &mut rows);
                                proof {
                                    lemma_user_rows_permuted(rows@, unsorted,
                                        self.table.entries@);
                                }
                                Ok(ControlResult::Users(rows))
                            },
                            Err(e) => Err(e),
                        }
                    },
                }
            },
            ControlCommand::ThrottlePid { pid, kilobytes_per_second } => {
                // The construction plan, if any, went out with this
                // command's kernel plan; here the manager need only stand.
                let _ = self.ensure_traffic_control();
                match &mut self.traffic_control {
                    Some(t) => {
                        match t.throttle_pid(*pid, *kilobytes_per_second, kernel_applied) {
                            Ok(()) => Ok(ControlResult::Done),
                            Err(e) => Err(e),
                        }
                    },
                    None => Err(CoreError::Internal),
                }
            },
            ControlCommand::ThrottlePort { port, kilobytes_per_second, burst_kb } => {
                // As above: the construction plan went out with the
                // command's kernel plan.
                let _ = self.ensure_traffic_control();
                match &mut self.traffic_control {
                    Some(t) => {
                        match t.throttle_port(*port, *kilobytes_per_second, *burst_kb,
                            kernel_applied) {
                            Ok(()) => Ok(ControlResult::Done),
                            Err(e) => Err(e),
                        }
                    },
                    None => Err(CoreError::Internal),
                }
            },
            ControlCommand::UnthrottlePid { pid } => {
                match &mut self.traffic_control {
                    Some(t) => {
                        match t.unthrottle_pid(*pid, kernel_applied) {
                            Ok(()) => Ok(ControlResult::Done),
                            Err(e) => Err(e),
                        }
                    },
                    None => Ok(ControlResult::Done),
                }
            },
            ControlCommand::UnthrottlePort { port } => {
                match &mut self.traffic_control {
                    Some(t) => {
                        match t.unthrottle_port(*port, kernel_applied) {
                            Ok(()) => Ok(ControlResult::Done),
                            Err(e) => Err(e),
                        }
                    },
                    None => Ok(ControlResult::Done),
                }
            },
        }
    }

    /// Stop everything: end the capture and hand back the teardown
    /// plan of the traffic-control manager, which is dropped. A
    /// controller without one has nothing to tear down.
    pub fn shutdown(&mut self) -> (r: Vec<KernelCommand>)
        requires
            old(self).wf(),
        ensures
            final(self).wf(),
            !final(self).capturing,
            final(self).traffic_control is None,
            old(self).traffic_control is Some ==> r@ == spec_teardown_plan(),
            old(self).traffic_control is None ==> r@ == Seq::<KernelCommand>::empty(),
    {
        self.capturing = false;
        let tc = self.traffic_control.take();
        match tc {
            Some(t) => t.teardown_commands(),
            None => Vec::new(),
        }
    }
}

/// The socket-table query family of a flow's transport: exact for TCP
/// and UDP, both families otherwise.
pub open spec fn transport_query_of(t: TransProtocol) -> TransportQuery {
    match t {
        TransProtocol::TCP => TransportQuery::Tcp,
        TransProtocol::UDP => TransportQuery::Udp,
        TransProtocol::ICMP => TransportQuery::Both,
        TransProtocol::Other => TransportQuery::Both,
    }
}

/// What stopping the capture does: it clears the capture flag and
/// touches nothing else.
pub open spec fn spec_stop(c: CoreController) -> CoreController {
    CoreController { capturing: false, ..c }
}

/// Stopping twice is stopping once: the second stop is a no-op, and
/// `stop_capture` returns success on any controller, stopped or not.
pub proof fn lemma_double_stop_is_noop(c: CoreController)
    ensures
        spec_stop(spec_stop(c)) == spec_stop(c),
{
}

} // verus!
