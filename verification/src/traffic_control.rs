//! The traffic-control manager: plans the kernel queue-discipline,
//! class, filter and control-group commands that enforce bandwidth
//! limits, and tracks which identifier has been committed to the kernel
//! for each currently throttled target.
//!
//! The kernel itself is driven outside this library: a caller first asks
//! for the command plan of an operation, executes it, and then records
//! the outcome. An operation whose mandatory commands failed leaves the
//! identifier table exactly as it was.

use vstd::prelude::*;

use crate::CoreError;
use crate::assoc::{al_at, al_get, al_has, al_insert, al_remove, al_unique, lemma_al_at,
    lemma_al_insert, lemma_al_remove};

verus! {

/// What a bandwidth limit is attached to.
#[derive(Clone, Copy, PartialEq, Eq, Structural, Debug, Hash)]
pub enum ThrottlingTarget {
    Pid(u32),
    PortEgress(u16),
    PortIngress(u16),
    Interface,
}

/// A bandwidth limit applied to the whole interface's ingress at
/// construction time.
#[derive(Clone, Copy, PartialEq, Eq, Structural, Debug)]
pub struct IngressThrottleConfig {
    pub kbps: usize,
    pub burst_kb: usize,
}

/// One kernel operation of the traffic-control protocol. Rates are in
/// kilobytes per second, bursts in kilobytes; identifiers are the
/// dispensed 16-bit values used as filter prios and class ids.
#[derive(Clone, Copy, PartialEq, Eq, Structural, Debug)]
pub enum KernelOp {
    /// Delete the root queue discipline and everything under it.
    QdiscDelRoot,
    /// Delete the ingress queue discipline and its filters.
    QdiscDelIngress,
    /// Install the HTB root queue discipline with handle `1:`.
    QdiscAddRootHtb,
    /// Install the ingress queue discipline.
    QdiscAddIngress,
    /// Police all IPv4 ingress traffic to a rate, dropping on exceed.
    FilterAddIngressPolice { kbps: usize, burst_kb: usize },
    /// Map packets to the HTB class named by their cgroup classid.
    FilterAddCgroup,
    /// Delete the filter installed at a prio.
    FilterDelPrio { prio: u16 },
    /// Police egress traffic whose transport source port matches.
    FilterAddEgressPortPolice { prio: u16, port: u16, kbps: usize, burst_kb: usize },
    /// Police ingress traffic whose transport destination port matches.
    FilterAddIngressPortPolice { prio: u16, port: u16, kbps: usize, burst_kb: usize },
    /// Delete the HTB class with classid `1:<classid>`.
    ClassDel { classid: u16 },
    /// Add an HTB class with classid `1:<classid>` and the given rate.
    ClassAddHtb { classid: u16, kbps: usize },
    /// Create the control group named for the process.
    CgroupCreate { pid: u32 },
    /// Write `0x1<classid in four hex digits>` to the group's classid.
    CgroupWriteClassid { pid: u32, classid: u16 },
    /// Move the process into its control group.
    CgroupClassifyPid { pid: u32 },
}

/// A planned kernel operation. A mandatory one that fails aborts its
/// operation, which then commits nothing; a best-effort one may fail
/// freely (deletions of possibly absent objects).
#[derive(Clone, Copy, PartialEq, Eq, Structural, Debug)]
pub struct KernelCommand {
    pub op: KernelOp,
    pub mandatory: bool,
}

/// The identifier dispensed to a process target, or the counter when
/// the target is new.
pub open spec fn pid_identifier(s: Seq<(ThrottlingTarget, u16)>, counter: u16, pid: u32) -> u16 {
    if al_has(s, ThrottlingTarget::Pid(pid)) {
        al_get(s, ThrottlingTarget::Pid(pid))
    } else {
        counter
    }
}

/// Whether throttling this process would consume a fresh identifier.
pub open spec fn pid_needs_fresh(s: Seq<(ThrottlingTarget, u16)>, pid: u32) -> bool {
    !al_has(s, ThrottlingTarget::Pid(pid))
}

/// The command plan for throttling a process: first-time targets get a
/// control group carrying the classid, then the class is dropped and
/// re-added with the requested rate, so that rethrottling replaces the
/// old rate.
pub open spec fn spec_throttle_pid_plan(s: Seq<(ThrottlingTarget, u16)>, counter: u16,
    pid: u32, kbps: usize) -> Seq<KernelCommand> {
    let id = pid_identifier(s, counter, pid);
    let class_cmds = seq![
        KernelCommand { op: KernelOp::ClassDel { classid: id }, mandatory: false },
        KernelCommand { op: KernelOp::ClassAddHtb { classid: id, kbps }, mandatory: true },
    ];
    if pid_needs_fresh(s, pid) {
        seq![
            KernelCommand { op: KernelOp::CgroupCreate { pid }, mandatory: true },
            KernelCommand { op: KernelOp::CgroupWriteClassid { pid, classid: id },
                mandatory: true },
            KernelCommand { op: KernelOp::CgroupClassifyPid { pid }, mandatory: true },
        ].add(class_cmds)
    } else {
        class_cmds
    }
}

/// The plan for undoing a process throttle: remove its class. A target
/// that is not tracked needs nothing.
pub open spec fn spec_unthrottle_pid_plan(s: Seq<(ThrottlingTarget, u16)>, pid: u32)
    -> Seq<KernelCommand> {
    if al_has(s, ThrottlingTarget::Pid(pid)) {
        seq![
            KernelCommand {
                op: KernelOp::ClassDel { classid: al_get(s, ThrottlingTarget::Pid(pid)) },
                mandatory: true,
            },
        ]
    } else {
        Seq::empty()
    }
}

/// The burst applied to a port throttle when none is given: 256 kB.
pub open spec fn burst_or_default(burst_in_kilobytes: Option<usize>) -> usize {
    match burst_in_kilobytes {
        Some(b) => b,
        None => 256,
    }
}

/// How many fresh identifiers throttling this port would consume.
pub open spec fn port_fresh_count(s: Seq<(ThrottlingTarget, u16)>, port: u16) -> int {
    (if al_has(s, ThrottlingTarget::PortEgress(port)) { 0int } else { 1int })
        + (if al_has(s, ThrottlingTarget::PortIngress(port)) { 0int } else { 1int })
}

/// The identifier used as the egress filter prio for a port.
pub open spec fn port_egress_id(s: Seq<(ThrottlingTarget, u16)>, counter: u16, port: u16)
    -> u16 {
    if al_has(s, ThrottlingTarget::PortEgress(port)) {
        al_get(s, ThrottlingTarget::PortEgress(port))
    } else {
        counter
    }
}

/// The identifier used as the ingress filter prio for a port; a fresh
/// one comes after the egress identifier when that is fresh too.
pub open spec fn port_ingress_id(s: Seq<(ThrottlingTarget, u16)>, counter: u16, port: u16)
    -> int {
    if al_has(s, ThrottlingTarget::PortIngress(port)) {
        al_get(s, ThrottlingTarget::PortIngress(port)) as int
    } else if al_has(s, ThrottlingTarget::PortEgress(port)) {
        counter as int
    } else {
        counter + 1
    }
}

/// The command plan for throttling a port: on each side, any old filter
/// at the reserved prio goes first, then the policing filter with the
/// requested rate and burst is installed.
pub open spec fn spec_throttle_port_plan(s: Seq<(ThrottlingTarget, u16)>, counter: u16,
    port: u16, kbps: usize, burst_kb: usize) -> Seq<KernelCommand> {
    let eg = port_egress_id(s, counter, port);
    let ing = port_ingress_id(s, counter, port) as u16;
    seq![
        KernelCommand { op: KernelOp::FilterDelPrio { prio: eg }, mandatory: false },
        KernelCommand {
            op: KernelOp::FilterAddEgressPortPolice { prio: eg, port, kbps, burst_kb },
            mandatory: true,
        },
        KernelCommand { op: KernelOp::FilterDelPrio { prio: ing }, mandatory: false },
        KernelCommand {
            op: KernelOp::FilterAddIngressPortPolice { prio: ing, port, kbps, burst_kb },
            mandatory: true,
        },
    ]
}

/// The plan for undoing a port throttle: remove both filters. A port
/// not tracked on both sides needs nothing.
pub open spec fn spec_unthrottle_port_plan(s: Seq<(ThrottlingTarget, u16)>, port: u16)
    -> Seq<KernelCommand> {
    if al_has(s, ThrottlingTarget::PortEgress(port))
        && al_has(s, ThrottlingTarget::PortIngress(port)) {
        seq![
            KernelCommand {
                op: KernelOp::FilterDelPrio {
                    prio: al_get(s, ThrottlingTarget::PortEgress(port)),
                },
                mandatory: true,
            },
            KernelCommand {
                op: KernelOp::FilterDelPrio {
                    prio: al_get(s, ThrottlingTarget::PortIngress(port)),
                },
                mandatory: true,
            },
        ]
    } else {
        Seq::empty()
    }
}

/// The construction plan: best-effort deletion of any stale queue
/// disciplines, fresh root and ingress queue disciplines, the optional
/// interface-wide ingress policer, and the cgroup classifier.
pub open spec fn spec_setup_plan(config: Option<IngressThrottleConfig>) -> Seq<KernelCommand> {
    let head = seq![
        KernelCommand { op: KernelOp::QdiscDelRoot, mandatory: false },
        KernelCommand { op: KernelOp::QdiscDelIngress, mandatory: false },
        KernelCommand { op: KernelOp::QdiscAddRootHtb, mandatory: true },
        KernelCommand { op: KernelOp::QdiscAddIngress, mandatory: true },
    ];
    let tail = seq![
        KernelCommand { op: KernelOp::FilterAddCgroup, mandatory: true },
    ];
    match config {
        Some(c) => head.add(
            seq![
                KernelCommand {
                    op: KernelOp::FilterAddIngressPolice { kbps: c.kbps, burst_kb: c.burst_kb },
                    mandatory: true,
                },
            ],
        ).add(tail),
        None => head.add(tail),
    }
}

/// The destruction plan: remove the root and ingress queue disciplines,
/// best effort, taking every class and filter under them along.
pub open spec fn spec_teardown_plan() -> Seq<KernelCommand> {
    seq![
        KernelCommand { op: KernelOp::QdiscDelRoot, mandatory: false },
        KernelCommand { op: KernelOp::QdiscDelIngress, mandatory: false },
    ]
}

/// Bind a target to an identifier in the table: updated in place when
/// tracked, appended otherwise.
fn commit_target(table: &mut Vec<(ThrottlingTarget, u16)>, t: ThrottlingTarget, id: u16)
    requires
        al_unique(old(table)@),
    ensures
        final(table)@ == al_insert(old(table)@, t, id),
        al_unique(final(table)@),
{
    let mut i: usize = 0;
    while i < table.len()
        invariant
            al_unique(table@),
            table@ == old(table)@,
            i <= table@.len(),
            forall|j: int| 0 <= j < i ==> table@[j].0 != t,
        decreases table@.len() - i,
    {
        if table[i].0 == t {
            proof {
                lemma_al_at(table@, i as int);
                lemma_al_insert(table@, t, id);
            }
            let e = &mut table[i];
            e.1 = id;
            proof {
                assert(table@ =~= al_insert(old(table)@, t, id));
            }
            return;
        }
        i += 1;
    }
    proof {
        lemma_al_insert(table@, t, id);
    }
    table.push((t, id));
    proof {
        assert(table@ =~= al_insert(old(table)@, t, id));
    }
}

/// The traffic-control manager for one interface.
pub struct TrafficControl {
    /// Free-running dispenser of identifiers; strictly greater than
    /// every identifier ever dispensed, never decremented.
    pub identifier_counter: u16,
    /// Which identifier is committed to the kernel for each currently
    /// throttled target.
    pub identifiers_table: Vec<(ThrottlingTarget, u16)>,
    /// The interface whose queue disciplines this manager owns.
    pub interface: String,
    /// The capability probe's result, supplied at construction:
    /// whether the host offers the net_cls control groups and the
    /// traffic-control stack. Without them every throttle is refused
    /// as a missing prerequisite, and the interface-wide policer is
    /// withheld from the construction plan.
    pub facilities_present: bool,
}

impl TrafficControl {
    /// Targets are tracked at most once, and every committed identifier
    /// lies strictly below the dispenser.
    pub open spec fn wf(self) -> bool {
        &&& al_unique(self.identifiers_table@)
        &&& forall|i: int| 0 <= i < self.identifiers_table@.len()
            ==> (#[trigger] self.identifiers_table@[i]).1 < self.identifier_counter
        &&& self.identifier_counter >= 1
    }

    /// A fresh manager with an empty identifier table, together with
    /// the construction plan to run against the kernel. When the
    /// host's facilities are absent, the requested interface-wide
    /// ingress policer is withheld from the plan; the caller that took
    /// the request surfaces the missing prerequisite.
    pub fn new(interface: String, interface_config: Option<IngressThrottleConfig>,
        facilities_present: bool) -> (r: (TrafficControl, Vec<KernelCommand>))
        ensures
            r.0.wf(),
            r.0.identifiers_table@.len() == 0,
            r.0.identifier_counter == 1,
            r.0.interface@ == interface@,
            r.0.facilities_present == facilities_present,
            r.1@ == spec_setup_plan(
                if facilities_present {
                    interface_config
                } else {
                    None
                },
            ),
    {
        let policed = if facilities_present {
            interface_config
        } else {
            None
        };
        let mut plan: Vec<KernelCommand> = Vec::new();
        plan.push(KernelCommand { op: KernelOp::QdiscDelRoot, mandatory: false });
        plan.push(KernelCommand { op: KernelOp::QdiscDelIngress, mandatory: false });
        plan.push(KernelCommand { op: KernelOp::QdiscAddRootHtb, mandatory: true });
        plan.push(KernelCommand { op: KernelOp::QdiscAddIngress, mandatory: true });
        match policed {
            Some(c) => {
                plan.push(KernelCommand {
                    op: KernelOp::FilterAddIngressPolice { kbps: c.kbps, burst_kb: c.burst_kb },
                    mandatory: true,
                });
            },
            None => {},
        }
        plan.push(KernelCommand { op: KernelOp::FilterAddCgroup, mandatory: true });
        proof {
            assert(plan@ =~= spec_setup_plan(policed));
        }
        (
            TrafficControl {
                identifiers_table: Vec::new(),
                interface,
                identifier_counter: 1,
                facilities_present,
            },
            plan,
        )
    }

    /// The row of a target in the identifier table, if tracked.
    fn find_target(&self, t: &ThrottlingTarget) -> (r: Option<usize>)
        requires
            self.wf(),
        ensures
            match r {
                Some(i) => i < self.identifiers_table@.len()
                    && self.identifiers_table@[i as int].0 == *t
                    && i == al_at(self.identifiers_table@, *t)
                    && al_has(self.identifiers_table@, *t),
                None => !al_has(self.identifiers_table@, *t),
            },
    {
        let mut i: usize = 0;
        while i < self.identifiers_table.len()
            invariant
                self.wf(),
                i <= self.identifiers_table@.len(),
                forall|j: int| 0 <= j < i ==> self.identifiers_table@[j].0 != *t,
            decreases self.identifiers_table@.len() - i,
        {
            if self.identifiers_table[i].0 == *t {
                proof {
                    lemma_al_at(self.identifiers_table@, i as int);
                }
                return Some(i);
            }
            i += 1;
        }
        None
    }

    /// Whether the process is currently throttled.
    pub fn pid_is_throttled(&self, pid: u32) -> (r: bool)
        requires
            self.wf(),
        ensures
            r == al_has(self.identifiers_table@, ThrottlingTarget::Pid(pid)),
    {
        self.find_target(&ThrottlingTarget::Pid(pid)).is_some()
    }

    /// The command plan for throttling a process at the given rate;
    /// refused when the host's facilities are absent or the identifier
    /// dispenser is exhausted.
    pub fn throttle_pid_commands(&self, pid: u32, kilobytes_per_second: usize)
        -> (r: Result<Vec<KernelCommand>, CoreError>)
        requires
            self.wf(),
        ensures
            r is Err <==> !self.facilities_present
                || (pid_needs_fresh(self.identifiers_table@, pid)
                    && self.identifier_counter == u16::MAX),
            !self.facilities_present ==> r == Result::<Vec<KernelCommand>, CoreError>::Err(
                CoreError::ControlPrerequisiteMissing),
            self.facilities_present && pid_needs_fresh(self.identifiers_table@, pid)
                && self.identifier_counter == u16::MAX ==> r
                == Result::<Vec<KernelCommand>, CoreError>::Err(CoreError::Internal),
            r matches Ok(plan) ==> plan@ == spec_throttle_pid_plan(self.identifiers_table@,
                self.identifier_counter, pid, kilobytes_per_second),
    {
        if !self.facilities_present {
            return Err(CoreError::ControlPrerequisiteMissing);
        }
        let mut plan: Vec<KernelCommand> = Vec::new();
        let id: u16;
        match self.find_target(&ThrottlingTarget::Pid(pid)) {
            Some(i) => {
                id = self.identifiers_table[i].1;
            },
            None => {
                if self.identifier_counter == u16::MAX {
                    return Err(CoreError::Internal);
                }
                id = self.identifier_counter;
                plan.push(KernelCommand { op: KernelOp::CgroupCreate { pid }, mandatory: true });
                plan.push(KernelCommand {
                    op: KernelOp::CgroupWriteClassid { pid, classid: id },
                    mandatory: true,
                });
                plan.push(KernelCommand {
                    op: KernelOp::CgroupClassifyPid { pid },
                    mandatory: true,
                });
            },
        }
        plan.push(KernelCommand { op: KernelOp::ClassDel { classid: id }, mandatory: false });
        plan.push(KernelCommand {
            op: KernelOp::ClassAddHtb { classid: id, kbps: kilobytes_per_second },
            mandatory: true,
        });
        proof {
            assert(plan@ =~= spec_throttle_pid_plan(self.identifiers_table@,
                self.identifier_counter, pid, kilobytes_per_second));
        }
        Ok(plan)
    }

    /// Record the outcome of a process-throttle plan. When every
    /// mandatory command succeeded, the target's identifier is
    /// committed and the dispenser advances if a fresh one was used;
    /// otherwise nothing is recorded. Without the host's facilities
    /// the prerequisite is missing and nothing is recorded either.
    pub fn throttle_pid(&mut self, pid: u32, kilobytes_per_second: usize, applied: bool)
        -> (r: Result<(), CoreError>)
        requires
            old(self).wf(),
        ensures
            final(self).wf(),
            final(self).interface@ == old(self).interface@,
            final(self).facilities_present == old(self).facilities_present,
            r is Ok <==> old(self).facilities_present && applied
                && !(pid_needs_fresh(old(self).identifiers_table@, pid)
                    && old(self).identifier_counter == u16::MAX),
            !old(self).facilities_present ==> r == Result::<(), CoreError>::Err(
                CoreError::ControlPrerequisiteMissing),
            old(self).facilities_present && pid_needs_fresh(old(self).identifiers_table@, pid)
                && old(self).identifier_counter == u16::MAX ==> r
                == Result::<(), CoreError>::Err(CoreError::Internal),
            old(self).facilities_present && !applied
                && !(pid_needs_fresh(old(self).identifiers_table@, pid)
                    && old(self).identifier_counter == u16::MAX) ==> r
                == Result::<(), CoreError>::Err(CoreError::ControlInvocationFailed),
            r is Err ==> final(self).identifiers_table@ == old(self).identifiers_table@
                && final(self).identifier_counter == old(self).identifier_counter,
            r is Ok ==> ({
                let s = old(self).identifiers_table@;
                let c = old(self).identifier_counter;
                &&& final(self).identifiers_table@ == al_insert(s, ThrottlingTarget::Pid(pid),
                    pid_identifier(s, c, pid))
                &&& final(self).identifier_counter
                    == if pid_needs_fresh(s, pid) { (c + 1) as u16 } else { c }
            }),
    {
        let ghost s = self.identifiers_table@;
        let ghost c = self.identifier_counter;
        if !self.facilities_present {
            return Err(CoreError::ControlPrerequisiteMissing);
        }
        match self.find_target(&ThrottlingTarget::Pid(pid)) {
            Some(i) => {
                if !applied {
                    return Err(CoreError::ControlInvocationFailed);
                }
                proof {
                    lemma_al_insert(s, ThrottlingTarget::Pid(pid), al_get(s,
                        ThrottlingTarget::Pid(pid)));
                    assert(self.identifiers_table@ =~= al_insert(s, ThrottlingTarget::Pid(pid),
                        pid_identifier(s, c, pid)));
                }
                Ok(())
            },
            None => {
                if self.identifier_counter == u16::MAX {
                    return Err(CoreError::Internal);
                }
                if !applied {
                    return Err(CoreError::ControlInvocationFailed);
                }
                let id = self.identifier_counter;
                self.identifiers_table.push((ThrottlingTarget::Pid(pid), id));
                self.identifier_counter = id + 1;
                proof {
                    lemma_al_insert(s, ThrottlingTarget::Pid(pid), id);
                }
                Ok(())
            },
        }
    }

    /// The plan for undoing a process throttle; empty when the process
    /// is not tracked.
    pub fn unthrottle_pid_commands(&self, pid: u32) -> (r: Vec<KernelCommand>)
        requires
            self.wf(),
        ensures
            r@ == spec_unthrottle_pid_plan(self.identifiers_table@, pid),
    {
        let mut plan: Vec<KernelCommand> = Vec::new();
        match self.find_target(&ThrottlingTarget::Pid(pid)) {
            Some(i) => {
                plan.push(KernelCommand {
                    op: KernelOp::ClassDel { classid: self.identifiers_table[i].1 },
                    mandatory: true,
                });
            },
            None => {},
        }
        proof {
            assert(plan@ =~= spec_unthrottle_pid_plan(self.identifiers_table@, pid));
        }
        plan
    }

    /// Record the outcome of undoing a process throttle. A tracked
    /// target is forgotten only after its class was removed in the
    /// kernel; an untracked target needs nothing and the call is a
    /// no-op that succeeds.
    pub fn unthrottle_pid(&mut self, pid: u32, applied: bool) -> (r: Result<(), CoreError>)
        requires
            old(self).wf(),
        ensures
            final(self).wf(),
            final(self).interface@ == old(self).interface@,
            final(self).facilities_present == old(self).facilities_present,
            final(self).identifier_counter == old(self).identifier_counter,
            r is Ok <==> (applied || !al_has(old(self).identifiers_table@,
                ThrottlingTarget::Pid(pid))),
            r is Err ==> r == Result::<(), CoreError>::Err(CoreError::ControlInvocationFailed),
            r is Ok ==> final(self).identifiers_table@
                == al_remove(old(self).identifiers_table@, ThrottlingTarget::Pid(pid)),
            r is Err ==> final(self).identifiers_table@ == old(self).identifiers_table@,
    {
        let ghost s = self.identifiers_table@;
        match self.find_target(&ThrottlingTarget::Pid(pid)) {
            Some(i) => {
                if !applied {
                    return Err(CoreError::ControlInvocationFailed);
                }
                self.identifiers_table.remove(i);
                proof {
                    lemma_al_remove(s, ThrottlingTarget::Pid(pid));
                }
                Ok(())
            },
            None => {
                proof {
                    lemma_al_remove(s, ThrottlingTarget::Pid(pid));
                }
                Ok(())
            },
        }
    }

    /// The command plan for throttling a port in both directions;
    /// refused when the host's facilities are absent or the identifier
    /// dispenser cannot cover the fresh identifiers needed. An absent
    /// burst defaults to 256 kB.
    pub fn throttle_port_commands(&self, port: u16, kilobytes_per_second: usize,
        burst_in_kilobytes: Option<usize>) -> (r: Result<Vec<KernelCommand>, CoreError>)
        requires
            self.wf(),
        ensures
            r is Err <==> !self.facilities_present || self.identifier_counter
                + port_fresh_count(self.identifiers_table@, port) > u16::MAX,
            !self.facilities_present ==> r == Result::<Vec<KernelCommand>, CoreError>::Err(
                CoreError::ControlPrerequisiteMissing),
            self.facilities_present && self.identifier_counter + port_fresh_count(
                self.identifiers_table@, port) > u16::MAX ==> r
                == Result::<Vec<KernelCommand>, CoreError>::Err(CoreError::Internal),
            r matches Ok(plan) ==> plan@ == spec_throttle_port_plan(self.identifiers_table@,
                self.identifier_counter, port, kilobytes_per_second,
                burst_or_default(burst_in_kilobytes)),
    {
        if !self.facilities_present {
            return Err(CoreError::ControlPrerequisiteMissing);
        }
        let burst = match burst_in_kilobytes {
            Some(b) => b,
            None => 256,
        };
        let eg_tracked = self.find_target(&ThrottlingTarget::PortEgress(port));
        let in_tracked = self.find_target(&ThrottlingTarget::PortIngress(port));
        let fresh: u16 = (if eg_tracked.is_none() { 1u16 } else { 0u16 })
            + (if in_tracked.is_none() { 1u16 } else { 0u16 });
        if fresh > 0 && self.identifier_counter > u16::MAX - fresh {
            return Err(CoreError::Internal);
        }
        let eg: u16 = match eg_tracked {
            Some(i) => self.identifiers_table[i].1,
            None => self.identifier_counter,
        };
        let ing: u16 = match in_tracked {
            Some(i) => self.identifiers_table[i].1,
            None => {
                if eg_tracked.is_none() {
                    self.identifier_counter + 1
                } else {
                    self.identifier_counter
                }
            },
        };
        let mut plan: Vec<KernelCommand> = Vec::new();
        plan.push(KernelCommand { op: KernelOp::FilterDelPrio { prio: eg }, mandatory: false });
        plan.push(KernelCommand {
            op: KernelOp::FilterAddEgressPortPolice {
                prio: eg,
                port,
                kbps: kilobytes_per_second,
                burst_kb: burst,
            },
            mandatory: true,
        });
        plan.push(KernelCommand { op: KernelOp::FilterDelPrio { prio: ing }, mandatory: false });
        plan.push(KernelCommand {
            op: KernelOp::FilterAddIngressPortPolice {
                prio: ing,
                port,
                kbps: kilobytes_per_second,
                burst_kb: burst,
            },
            mandatory: true,
        });
        proof {
            assert(plan@ =~= spec_throttle_port_plan(self.identifiers_table@,
                self.identifier_counter, port, kilobytes_per_second, burst));
        }
        Ok(plan)
    }

    /// Record the outcome of a port-throttle plan. When every mandatory
    /// command succeeded, both directions are committed and the
    /// dispenser advances over the fresh identifiers used; otherwise
    /// nothing is recorded. Without the host's facilities the
    /// prerequisite is missing and nothing is recorded either.
    pub fn throttle_port(&mut self, port: u16, kilobytes_per_second: usize,
        burst_in_kilobytes: Option<usize>, applied: bool) -> (r: Result<(), CoreError>)
        requires
            old(self).wf(),
        ensures
            final(self).wf(),
            final(self).interface@ == old(self).interface@,
            final(self).facilities_present == old(self).facilities_present,
            r is Ok <==> old(self).facilities_present && applied
                && old(self).identifier_counter
                    + port_fresh_count(old(self).identifiers_table@, port) <= u16::MAX,
            !old(self).facilities_present ==> r == Result::<(), CoreError>::Err(
                CoreError::ControlPrerequisiteMissing),
            old(self).facilities_present && old(self).identifier_counter
                + port_fresh_count(old(self).identifiers_table@, port) > u16::MAX ==> r
                == Result::<(), CoreError>::Err(CoreError::Internal),
            old(self).facilities_present && !applied && old(self).identifier_counter
                + port_fresh_count(old(self).identifiers_table@, port) <= u16::MAX ==> r
                == Result::<(), CoreError>::Err(CoreError::ControlInvocationFailed),
            r is Err ==> final(self).identifiers_table@ == old(self).identifiers_table@
                && final(self).identifier_counter == old(self).identifier_counter,
            r is Ok ==> ({
                let s = old(self).identifiers_table@;
                let c = old(self).identifier_counter;
                &&& final(self).identifiers_table@ == al_insert(
                    al_insert(s, ThrottlingTarget::PortEgress(port), port_egress_id(s, c, port)),
                    ThrottlingTarget::PortIngress(port),
                    port_ingress_id(s, c, port) as u16,
                )
                &&& final(self).identifier_counter == c + port_fresh_count(s, port)
            }),
    {
        let ghost s = self.identifiers_table@;
        let ghost c = self.identifier_counter;
        if !self.facilities_present {
            return Err(CoreError::ControlPrerequisiteMissing);
        }
        let eg_tracked = self.find_target(&ThrottlingTarget::PortEgress(port));
        let in_tracked = self.find_target(&ThrottlingTarget::PortIngress(port));
        let fresh: u16 = (if eg_tracked.is_none() { 1u16 } else { 0u16 })
            + (if in_tracked.is_none() { 1u16 } else { 0u16 });
        if fresh > 0 && self.identifier_counter > u16::MAX - fresh {
            return Err(CoreError::Internal);
        }
        if !applied {
            return Err(CoreError::ControlInvocationFailed);
        }
        let eg: u16 = match eg_tracked {
            Some(i) => self.identifiers_table[i].1,
            None => self.identifier_counter,
        };
        let ing: u16 = match in_tracked {
            Some(i) => self.identifiers_table[i].1,
            None => {
                if eg_tracked.is_none() {
                    self.identifier_counter + 1
                } else {
                    self.identifier_counter
                }
            },
        };
        commit_target(&mut self.identifiers_table, ThrottlingTarget::PortEgress(port), eg);
        commit_target(&mut self.identifiers_table, ThrottlingTarget::PortIngress(port), ing);
        self.identifier_counter = self.identifier_counter + fresh;
        proof {
            lemma_al_insert(s, ThrottlingTarget::PortEgress(port), eg);
            lemma_al_insert(al_insert(s, ThrottlingTarget::PortEgress(port), eg),
                ThrottlingTarget::PortIngress(port), ing);
            assert forall|i: int| 0 <= i < self.identifiers_table@.len()
                implies (#[trigger] self.identifiers_table@[i]).1
                    < self.identifier_counter by {
                let mid = al_insert(s, ThrottlingTarget::PortEgress(port), eg);
                let v = self.identifiers_table@[i].1;
                if v != ing {
                    let j = choose|j: int| 0 <= j < mid.len() && mid[j].1 == v;
                    if mid[j].1 != eg {
                        let k2 = choose|k2: int| 0 <= k2 < s.len() && s[k2].1 == mid[j].1;
                    }
                }
            }
        }
        Ok(())
    }

    /// The plan for undoing a port throttle; empty unless both
    /// directions are tracked.
    pub fn unthrottle_port_commands(&self, port: u16) -> (r: Vec<KernelCommand>)
        requires
            self.wf(),
        ensures
            r@ == spec_unthrottle_port_plan(self.identifiers_table@, port),
    {
        let mut plan: Vec<KernelCommand> = Vec::new();
        let eg_tracked = self.find_target(&ThrottlingTarget::PortEgress(port));
        let in_tracked = self.find_target(&ThrottlingTarget::PortIngress(port));
        match (eg_tracked, in_tracked) {
            (Some(i), Some(j)) => {
                plan.push(KernelCommand {
                    op: KernelOp::FilterDelPrio { prio: self.identifiers_table[i].1 },
                    mandatory: true,
                });
                plan.push(KernelCommand {
                    op: KernelOp::FilterDelPrio { prio: self.identifiers_table[j].1 },
                    mandatory: true,
                });
            },
            _ => {},
        }
        proof {
            assert(plan@ =~= spec_unthrottle_port_plan(self.identifiers_table@, port));
        }
        plan
    }

    /// Record the outcome of undoing a port throttle. A port tracked in
    /// both directions is forgotten only after its filters were removed
    /// in the kernel; any other port needs nothing and the call is a
    /// no-op that succeeds.
    pub fn unthrottle_port(&mut self, port: u16, applied: bool) -> (r: Result<(), CoreError>)
        requires
            old(self).wf(),
        ensures
            final(self).wf(),
            final(self).interface@ == old(self).interface@,
            final(self).facilities_present == old(self).facilities_present,
            final(self).identifier_counter == old(self).identifier_counter,
            r is Ok <==> (applied || !(al_has(old(self).identifiers_table@,
                ThrottlingTarget::PortEgress(port)) && al_has(old(self).identifiers_table@,
                ThrottlingTarget::PortIngress(port)))),
            r is Err ==> r == Result::<(), CoreError>::Err(CoreError::ControlInvocationFailed),
            r is Ok && al_has(old(self).identifiers_table@, ThrottlingTarget::PortEgress(port))
                && al_has(old(self).identifiers_table@, ThrottlingTarget::PortIngress(port))
                ==> final(self).identifiers_table@ == al_remove(
                al_remove(old(self).identifiers_table@, ThrottlingTarget::PortEgress(port)),
                ThrottlingTarget::PortIngress(port),
            ),
            !(al_has(old(self).identifiers_table@, ThrottlingTarget::PortEgress(port))
                && al_has(old(self).identifiers_table@, ThrottlingTarget::PortIngress(port)))
                ==> final(self).identifiers_table@ == old(self).identifiers_table@,
            r is Err ==> final(self).identifiers_table@ == old(self).identifiers_table@,
    {
        let ghost s = self.identifiers_table@;
        let throttled = self.port_is_throttled(port);
        if !throttled {
            return Ok(());
        }
        if !applied {
            return Err(CoreError::ControlInvocationFailed);
        }
        match self.find_target(&ThrottlingTarget::PortEgress(port)) {
            Some(i) => {
                self.identifiers_table.remove(i);
                proof {
                    lemma_al_remove(s, ThrottlingTarget::PortEgress(port));
                }
            },
            None => {},
        }
        match self.find_target(&ThrottlingTarget::PortIngress(port)) {
            Some(i) => {
                self.identifiers_table.remove(i);
                proof {
                    lemma_al_remove(al_remove(s, ThrottlingTarget::PortEgress(port)),
                        ThrottlingTarget::PortIngress(port));
                }
            },
            None => {},
        }
        Ok(())
    }

    /// The destruction plan for this manager's interface: it removes
    /// the root and ingress queue disciplines, and with them every
    /// class and filter this manager installed.
    pub fn teardown_commands(&self) -> (r: Vec<KernelCommand>)
        ensures
            r@ == spec_teardown_plan(),
    {
        let mut plan: Vec<KernelCommand> = Vec::new();
        plan.push(KernelCommand { op: KernelOp::QdiscDelRoot, mandatory: false });
        plan.push(KernelCommand { op: KernelOp::QdiscDelIngress, mandatory: false });
        proof {
            assert(plan@ =~= spec_teardown_plan());
        }
        plan
    }

    /// The plan that clears an interface of any stale root and ingress
    /// queue disciplines, as run before a fresh setup or after an
    /// irregular termination.
    pub fn clean_traffic_control_settings() -> (r: Vec<KernelCommand>)
        ensures
            r@ == spec_teardown_plan(),
    {
        let mut plan: Vec<KernelCommand> = Vec::new();
        plan.push(KernelCommand { op: KernelOp::QdiscDelRoot, mandatory: false });
        plan.push(KernelCommand { op: KernelOp::QdiscDelIngress, mandatory: false });
        proof {
            assert(plan@ =~= spec_teardown_plan());
        }
        plan
    }

    /// Whether the port is currently throttled; that takes both the
    /// egress and the ingress direction to be tracked.
    pub fn port_is_throttled(&self, port: u16) -> (r: bool)
        requires
            self.wf(),
        ensures
            r == (al_has(self.identifiers_table@, ThrottlingTarget::PortEgress(port))
                && al_has(self.identifiers_table@, ThrottlingTarget::PortIngress(port))),
    {
        self.find_target(&ThrottlingTarget::PortEgress(port)).is_some()
            && self.find_target(&ThrottlingTarget::PortIngress(port)).is_some()
    }
}

/// Throttling a process and then unthrottling it leaves the identifier
/// table with no entry for that process: committing any identifier for
/// the target and removing the target afterwards cannot leave it
/// tracked, whatever was tracked before.
pub proof fn lemma_throttle_then_unthrottle_pid(s: Seq<(ThrottlingTarget, u16)>, pid: u32,
    id: u16)
    requires
        al_unique(s),
    ensures
        !al_has(
            al_remove(al_insert(s, ThrottlingTarget::Pid(pid), id), ThrottlingTarget::Pid(pid)),
            ThrottlingTarget::Pid(pid),
        ),
{
    lemma_al_insert(s, ThrottlingTarget::Pid(pid), id);
    lemma_al_remove(al_insert(s, ThrottlingTarget::Pid(pid), id), ThrottlingTarget::Pid(pid));
}

} // verus!
