//! A model of the kernel traffic-control objects on one interface: the
//! queue disciplines, HTB classes, filters and control-group classids
//! that the planned commands create and destroy. The model gives the
//! command plans their meaning, and the laws about rethrottling and
//! teardown are proved against it.

use vstd::prelude::*;

use crate::assoc::{al_at, al_get, al_has, al_insert, al_remove, al_unique, lemma_al_at,
    lemma_al_insert, lemma_al_remove};
use crate::traffic_control::{KernelCommand, KernelOp, ThrottlingTarget, pid_identifier,
    pid_needs_fresh, spec_setup_plan, spec_teardown_plan, spec_throttle_pid_plan};
use crate::traffic_control::IngressThrottleConfig;

verus! {

/// A filter installed at some prio.
#[derive(Clone, Copy, PartialEq, Eq, Structural, Debug)]
pub enum FilterKind {
    /// The interface-wide ingress policer.
    IngressPolice { kbps: usize, burst_kb: usize },
    /// The classifier mapping cgroup classids to HTB classes.
    Cgroup,
    /// A policer on egress traffic of one transport source port.
    EgressPortPolice { port: u16, kbps: usize, burst_kb: usize },
    /// A policer on ingress traffic of one transport destination port.
    IngressPortPolice { port: u16, kbps: usize, burst_kb: usize },
}

/// The spec-level state of the modeled kernel objects. The classifier
/// and the interface-wide policer, which carry no dispensed prio, stand
/// at prio zero, below every dispensed identifier.
pub struct KernelModelView {
    pub root_qdisc: bool,
    pub ingress_qdisc: bool,
    /// HTB classes under the root, classid to rate.
    pub classes: Seq<(u16, usize)>,
    /// Filters attached under the root queue discipline.
    pub egress_filters: Seq<(u16, FilterKind)>,
    /// Filters attached under the ingress queue discipline.
    pub ingress_filters: Seq<(u16, FilterKind)>,
    /// net_cls control groups, process to classid.
    pub cgroup_classids: Seq<(u32, u16)>,
}

/// The effect of one kernel operation on the modeled objects. Deleting
/// a queue discipline takes every class and filter under it along;
/// additions insert or replace; deletions of absent objects change
/// nothing.
pub open spec fn kernel_step(m: KernelModelView, op: KernelOp) -> KernelModelView {
    match op {
        KernelOp::QdiscDelRoot => KernelModelView {
            root_qdisc: false,
            classes: Seq::empty(),
            egress_filters: Seq::empty(),
            ..m
        },
        KernelOp::QdiscDelIngress => KernelModelView {
            ingress_qdisc: false,
            ingress_filters: Seq::empty(),
            ..m
        },
        KernelOp::QdiscAddRootHtb => KernelModelView { root_qdisc: true, ..m },
        KernelOp::QdiscAddIngress => KernelModelView { ingress_qdisc: true, ..m },
        KernelOp::FilterAddIngressPolice { kbps, burst_kb } => KernelModelView {
            ingress_filters: al_insert(m.ingress_filters, 0u16,
                FilterKind::IngressPolice { kbps, burst_kb }),
            ..m
        },
        KernelOp::FilterAddCgroup => KernelModelView {
            egress_filters: al_insert(m.egress_filters, 0u16, FilterKind::Cgroup),
            ..m
        },
        KernelOp::FilterDelPrio { prio } => KernelModelView {
            egress_filters: al_remove(m.egress_filters, prio),
            ingress_filters: al_remove(m.ingress_filters, prio),
            ..m
        },
        KernelOp::FilterAddEgressPortPolice { prio, port, kbps, burst_kb } => KernelModelView {
            egress_filters: al_insert(m.egress_filters, prio,
                FilterKind::EgressPortPolice { port, kbps, burst_kb }),
            ..m
        },
        KernelOp::FilterAddIngressPortPolice { prio, port, kbps, burst_kb } => KernelModelView {
            ingress_filters: al_insert(m.ingress_filters, prio,
                FilterKind::IngressPortPolice { port, kbps, burst_kb }),
            ..m
        },
        KernelOp::ClassDel { classid } => KernelModelView {
            classes: al_remove(m.classes, classid),
            ..m
        },
        KernelOp::ClassAddHtb { classid, kbps } => KernelModelView {
            classes: al_insert(m.classes, classid, kbps),
            ..m
        },
        KernelOp::CgroupCreate { pid } => {
            if al_has(m.cgroup_classids, pid) {
                m
            } else {
                KernelModelView {
                    cgroup_classids: al_insert(m.cgroup_classids, pid, 0u16),
                    ..m
                }
            }
        },
        KernelOp::CgroupWriteClassid { pid, classid } => KernelModelView {
            cgroup_classids: al_insert(m.cgroup_classids, pid, classid),
            ..m
        },
        KernelOp::CgroupClassifyPid { pid: _ } => m,
    }
}

/// A command plan applied in order.
pub open spec fn kernel_run(m: KernelModelView, cmds: Seq<KernelCommand>) -> KernelModelView
    decreases cmds.len(),
{
    if cmds.len() == 0 {
        m
    } else {
        kernel_run(kernel_step(m, cmds[0].op), cmds.drop_first())
    }
}

/// No key-table of the model binds a key twice.
pub open spec fn model_wf(m: KernelModelView) -> bool {
    &&& al_unique(m.classes)
    &&& al_unique(m.egress_filters)
    &&& al_unique(m.ingress_filters)
    &&& al_unique(m.cgroup_classids)
}

/// Running a plan splits over concatenation.
pub proof fn lemma_kernel_run_add(m: KernelModelView, a: Seq<KernelCommand>,
    b: Seq<KernelCommand>)
    ensures
        kernel_run(m, a.add(b)) == kernel_run(kernel_run(m, a), b),
    decreases a.len(),
{
    if a.len() == 0 {
        assert(a.add(b) =~= b);
    } else {
        assert(a.add(b).drop_first() =~= a.drop_first().add(b));
        lemma_kernel_run_add(kernel_step(m, a[0].op), a.drop_first(), b);
    }
}

/// One step preserves key uniqueness in every table of the model.
pub proof fn lemma_kernel_step_wf(m: KernelModelView, op: KernelOp)
    requires
        model_wf(m),
    ensures
        model_wf(kernel_step(m, op)),
{
    match op {
        KernelOp::FilterAddIngressPolice { kbps, burst_kb } => {
            lemma_al_insert(m.ingress_filters, 0u16,
                FilterKind::IngressPolice { kbps, burst_kb });
        },
        KernelOp::FilterAddCgroup => {
            lemma_al_insert(m.egress_filters, 0u16, FilterKind::Cgroup);
        },
        KernelOp::FilterDelPrio { prio } => {
            lemma_al_remove(m.egress_filters, prio);
            lemma_al_remove(m.ingress_filters, prio);
        },
        KernelOp::FilterAddEgressPortPolice { prio, port, kbps, burst_kb } => {
            lemma_al_insert(m.egress_filters, prio,
                FilterKind::EgressPortPolice { port, kbps, burst_kb });
        },
        KernelOp::FilterAddIngressPortPolice { prio, port, kbps, burst_kb } => {
            lemma_al_insert(m.ingress_filters, prio,
                FilterKind::IngressPortPolice { port, kbps, burst_kb });
        },
        KernelOp::ClassDel { classid } => {
            lemma_al_remove(m.classes, classid);
        },
        KernelOp::ClassAddHtb { classid, kbps } => {
            lemma_al_insert(m.classes, classid, kbps);
        },
        KernelOp::CgroupCreate { pid } => {
            if !al_has(m.cgroup_classids, pid) {
                lemma_al_insert(m.cgroup_classids, pid, 0u16);
            }
        },
        KernelOp::CgroupWriteClassid { pid, classid } => {
            lemma_al_insert(m.cgroup_classids, pid, classid);
        },
        _ => {},
    }
}

/// A run preserves key uniqueness in every table of the model.
pub proof fn lemma_kernel_run_wf(m: KernelModelView, cmds: Seq<KernelCommand>)
    requires
        model_wf(m),
    ensures
        model_wf(kernel_run(m, cmds)),
    decreases cmds.len(),
{
    if cmds.len() > 0 {
        lemma_kernel_step_wf(m, cmds[0].op);
        lemma_kernel_run_wf(kernel_step(m, cmds[0].op), cmds.drop_first());
    }
}

/// The row of a key in a prio-keyed table, if bound.
fn find_u16<V>(v: &Vec<(u16, V)>, k: u16) -> (r: Option<usize>)
    requires
        al_unique(v@),
    ensures
        match r {
            Some(i) => i < v@.len() && v@[i as int].0 == k && i == al_at(v@, k)
                && al_has(v@, k),
            None => !al_has(v@, k),
        },
{
    let mut i: usize = 0;
    while i < v.len()
        invariant
            al_unique(v@),
            i <= v@.len(),
            forall|j: int| 0 <= j < i ==> v@[j].0 != k,
        decreases v@.len() - i,
    {
        if v[i].0 == k {
            proof {
                lemma_al_at(v@, i as int);
            }
            return Some(i);
        }
        i += 1;
    }
    None
}

/// Bind a key in a prio-keyed table: updated in place when bound,
/// appended otherwise.
fn upsert_u16<V>(v: &mut Vec<(u16, V)>, k: u16, val: V)
    requires
        al_unique(old(v)@),
    ensures
        final(v)@ == al_insert(old(v)@, k, val),
        al_unique(final(v)@),
{
    proof {
        lemma_al_insert(v@, k, val);
    }
    match find_u16(v, k) {
        Some(i) => {
            proof {
                lemma_al_at(v@, i as int);
            }
            let e = &mut v[i];
            e.1 = val;
            proof {
                assert(v@ =~= al_insert(old(v)@, k, val));
            }
        },
        None => {
            v.push((k, val));
            proof {
                assert(v@ =~= al_insert(old(v)@, k, val));
            }
        },
    }
}

/// Drop any binding of a key from a prio-keyed table.
fn remove_u16<V>(v: &mut Vec<(u16, V)>, k: u16)
    requires
        al_unique(old(v)@),
    ensures
        final(v)@ == al_remove(old(v)@, k),
        al_unique(final(v)@),
{
    proof {
        lemma_al_remove(v@, k);
    }
    match find_u16(v, k) {
        Some(i) => {
            v.remove(i);
        },
        None => {},
    }
}

/// The row of a process in the cgroup table, if present.
fn find_u32(v: &Vec<(u32, u16)>, k: u32) -> (r: Option<usize>)
    requires
        al_unique(v@),
    ensures
        match r {
            Some(i) => i < v@.len() && v@[i as int].0 == k && i == al_at(v@, k)
                && al_has(v@, k),
            None => !al_has(v@, k),
        },
{
    let mut i: usize = 0;
    while i < v.len()
        invariant
            al_unique(v@),
            i <= v@.len(),
            forall|j: int| 0 <= j < i ==> v@[j].0 != k,
        decreases v@.len() - i,
    {
        if v[i].0 == k {
            proof {
                lemma_al_at(v@, i as int);
            }
            return Some(i);
        }
        i += 1;
    }
    None
}

/// Bind a process's classid: updated in place when present, appended
/// otherwise.
fn upsert_u32(v: &mut Vec<(u32, u16)>, k: u32, val: u16)
    requires
        al_unique(old(v)@),
    ensures
        final(v)@ == al_insert(old(v)@, k, val),
        al_unique(final(v)@),
{
    proof {
        lemma_al_insert(v@, k, val);
    }
    match find_u32(v, k) {
        Some(i) => {
            proof {
                lemma_al_at(v@, i as int);
            }
            let e = &mut v[i];
            e.1 = val;
            proof {
                assert(v@ =~= al_insert(old(v)@, k, val));
            }
        },
        None => {
            v.push((k, val));
            proof {
                assert(v@ =~= al_insert(old(v)@, k, val));
            }
        },
    }
}

/// An executable mirror of the modeled kernel objects, for driving the
/// command plans in ordinary code and inspecting what they leave
/// behind.
pub struct KernelModel {
    pub root_qdisc: bool,
    pub ingress_qdisc: bool,
    pub classes: Vec<(u16, usize)>,
    pub egress_filters: Vec<(u16, FilterKind)>,
    pub ingress_filters: Vec<(u16, FilterKind)>,
    pub cgroup_classids: Vec<(u32, u16)>,
}

impl View for KernelModel {
    type V = KernelModelView;

    open spec fn view(&self) -> KernelModelView {
        KernelModelView {
            root_qdisc: self.root_qdisc,
            ingress_qdisc: self.ingress_qdisc,
            classes: self.classes@,
            egress_filters: self.egress_filters@,
            ingress_filters: self.ingress_filters@,
            cgroup_classids: self.cgroup_classids@,
        }
    }
}

impl KernelModel {
    /// An interface with no queue disciplines, classes, filters or
    /// control groups.
    pub fn new() -> (r: KernelModel)
        ensures
            r@.root_qdisc == false,
            r@.ingress_qdisc == false,
            r@.classes == Seq::<(u16, usize)>::empty(),
            r@.egress_filters == Seq::<(u16, FilterKind)>::empty(),
            r@.ingress_filters == Seq::<(u16, FilterKind)>::empty(),
            r@.cgroup_classids == Seq::<(u32, u16)>::empty(),
            model_wf(r@),
    {
        KernelModel {
            root_qdisc: false,
            ingress_qdisc: false,
            classes: Vec::new(),
            egress_filters: Vec::new(),
            ingress_filters: Vec::new(),
            cgroup_classids: Vec::new(),
        }
    }

    /// Apply one command, per `kernel_step`.
    pub fn apply(&mut self, cmd: &KernelCommand)
        requires
            model_wf(old(self)@),
        ensures
            final(self)@ == kernel_step(old(self)@, cmd.op),
            model_wf(final(self)@),
    {
        proof {
            lemma_kernel_step_wf(self@, cmd.op);
        }
        match cmd.op {
            KernelOp::QdiscDelRoot => {
                self.root_qdisc = false;
                self.classes.clear();
                self.egress_filters.clear();
            },
            KernelOp::QdiscDelIngress => {
                self.ingress_qdisc = false;
                self.ingress_filters.clear();
            },
            KernelOp::QdiscAddRootHtb => {
                self.root_qdisc = true;
            },
            KernelOp::QdiscAddIngress => {
                self.ingress_qdisc = true;
            },
            KernelOp::FilterAddIngressPolice { kbps, burst_kb } => {
                upsert_u16(&mut self.ingress_filters, 0,
                    FilterKind::IngressPolice { kbps, burst_kb });
            },
            KernelOp::FilterAddCgroup => {
                upsert_u16(&mut self.egress_filters, 0, FilterKind::Cgroup);
            },
            KernelOp::FilterDelPrio { prio } => {
                remove_u16(&mut self.egress_filters, prio);
                remove_u16(&mut self.ingress_filters, prio);
            },
            KernelOp::FilterAddEgressPortPolice { prio, port, kbps, burst_kb } => {
                upsert_u16(&mut self.egress_filters, prio,
                    FilterKind::EgressPortPolice { port, kbps, burst_kb });
            },
            KernelOp::FilterAddIngressPortPolice { prio, port, kbps, burst_kb } => {
                upsert_u16(&mut self.ingress_filters, prio,
                    FilterKind::IngressPortPolice { port, kbps, burst_kb });
            },
            KernelOp::ClassDel { classid } => {
                remove_u16(&mut self.classes, classid);
            },
            KernelOp::ClassAddHtb { classid, kbps } => {
                upsert_u16(&mut self.classes, classid, kbps);
            },
            KernelOp::CgroupCreate { pid } => {
                if find_u32(&self.cgroup_classids, pid).is_none() {
                    upsert_u32(&mut self.cgroup_classids, pid, 0);
                }
            },
            KernelOp::CgroupWriteClassid { pid, classid } => {
                upsert_u32(&mut self.cgroup_classids, pid, classid);
            },
            KernelOp::CgroupClassifyPid { pid: _ } => {},
        }
    }

    /// Apply a whole plan in order, per `kernel_run`.
    pub fn apply_all(&mut self, cmds: &Vec<KernelCommand>)
        requires
            model_wf(old(self)@),
        ensures
            final(self)@ == kernel_run(old(self)@, cmds@),
            model_wf(final(self)@),
    {
        let mut i: usize = 0;
        while i < cmds.len()
            invariant
                model_wf(self@),
                i <= cmds@.len(),
                self@ == kernel_run(old(self)@, cmds@.subrange(0, i as int)),
            decreases cmds@.len() - i,
        {
            proof {
                assert(cmds@.subrange(0, i + 1 as int) =~= cmds@.subrange(0, i as int).add(
                    seq![cmds@[i as int]]));
                lemma_kernel_run_add(old(self)@, cmds@.subrange(0, i as int),
                    seq![cmds@[i as int]]);
                lemma_run1(self@, cmds@[i as int]);
            }
            let c = cmds[i];
            self.apply(&c);
            i += 1;
        }
        proof {
            assert(cmds@.subrange(0, cmds@.len() as int) =~= cmds@);
        }
    }

    /// The rate of the HTB class at a classid, if one exists.
    pub fn class_rate(&self, classid: u16) -> (r: Option<usize>)
        requires
            model_wf(self@),
        ensures
            match r {
                Some(kbps) => al_has(self@.classes, classid)
                    && al_get(self@.classes, classid) == kbps,
                None => !al_has(self@.classes, classid),
            },
    {
        match find_u16(&self.classes, classid) {
            Some(i) => Some(self.classes[i].1),
            None => None,
        }
    }
}

/// A one-command plan is its command's step.
pub proof fn lemma_run1(m: KernelModelView, c0: KernelCommand)
    ensures
        kernel_run(m, seq![c0]) == kernel_step(m, c0.op),
{
    let p = seq![c0];
    assert(p[0] == c0);
    assert(kernel_run(m, p) == kernel_run(kernel_step(m, c0.op), p.drop_first()));
    assert(p.drop_first() =~= Seq::<KernelCommand>::empty());
    assert(kernel_run(kernel_step(m, c0.op), p.drop_first()) == kernel_step(m, c0.op));
}

/// A two-command plan is its two steps in order.
pub proof fn lemma_run2(m: KernelModelView, c0: KernelCommand, c1: KernelCommand)
    ensures
        kernel_run(m, seq![c0, c1]) == kernel_step(kernel_step(m, c0.op), c1.op),
{
    let p = seq![c0, c1];
    assert(p[0] == c0);
    assert(kernel_run(m, p) == kernel_run(kernel_step(m, c0.op), p.drop_first()));
    assert(p.drop_first() =~= seq![c1]);
    lemma_run1(kernel_step(m, c0.op), c1);
}

/// A three-command plan is its three steps in order.
pub proof fn lemma_run3(m: KernelModelView, c0: KernelCommand, c1: KernelCommand,
    c2: KernelCommand)
    ensures
        kernel_run(m, seq![c0, c1, c2]) == kernel_step(kernel_step(kernel_step(m, c0.op),
            c1.op), c2.op),
{
    let p = seq![c0, c1, c2];
    assert(p[0] == c0);
    assert(kernel_run(m, p) == kernel_run(kernel_step(m, c0.op), p.drop_first()));
    assert(p.drop_first() =~= seq![c1, c2]);
    lemma_run2(kernel_step(m, c0.op), c1, c2);
}

/// What a process-throttle plan does to the HTB classes: whatever
/// control-group bookkeeping precedes them, the class at the target's
/// identifier is removed and re-added with the requested rate.
pub proof fn lemma_throttle_pid_plan_classes(m: KernelModelView,
    s: Seq<(ThrottlingTarget, u16)>, counter: u16, pid: u32, kbps: usize)
    ensures
        kernel_run(m, spec_throttle_pid_plan(s, counter, pid, kbps)).classes == al_insert(
            al_remove(m.classes, pid_identifier(s, counter, pid)),
            pid_identifier(s, counter, pid),
            kbps,
        ),
{
    let id = pid_identifier(s, counter, pid);
    let del = KernelCommand { op: KernelOp::ClassDel { classid: id }, mandatory: false };
    let add = KernelCommand {
        op: KernelOp::ClassAddHtb { classid: id, kbps },
        mandatory: true,
    };
    if pid_needs_fresh(s, pid) {
        let g0 = KernelCommand { op: KernelOp::CgroupCreate { pid }, mandatory: true };
        let g1 = KernelCommand {
            op: KernelOp::CgroupWriteClassid { pid, classid: id },
            mandatory: true,
        };
        let g2 = KernelCommand { op: KernelOp::CgroupClassifyPid { pid }, mandatory: true };
        assert(spec_throttle_pid_plan(s, counter, pid, kbps)
            == seq![g0, g1, g2].add(seq![del, add]));
        lemma_kernel_run_add(m, seq![g0, g1, g2], seq![del, add]);
        lemma_run3(m, g0, g1, g2);
        let m3 = kernel_run(m, seq![g0, g1, g2]);
        assert(m3.classes == m.classes);
        lemma_run2(m3, del, add);
    } else {
        assert(spec_throttle_pid_plan(s, counter, pid, kbps) == seq![del, add]);
        lemma_run2(m, del, add);
    }
}

/// Rethrottling a process at a new rate: after a recorded throttle at
/// one rate and a second throttle at another, exactly one HTB class
/// exists for the process's classid, and its rate is the second one.
pub proof fn lemma_rethrottle_pid_rate(m: KernelModelView, s: Seq<(ThrottlingTarget, u16)>,
    counter: u16, pid: u32, kbps1: usize, kbps2: usize)
    requires
        model_wf(m),
        al_unique(s),
        pid_needs_fresh(s, pid) ==> counter < u16::MAX,
    ensures
        ({
            let id = pid_identifier(s, counter, pid);
            let s1 = al_insert(s, ThrottlingTarget::Pid(pid), id);
            let c1 = if pid_needs_fresh(s, pid) { (counter + 1) as u16 } else { counter };
            let m2 = kernel_run(
                kernel_run(m, spec_throttle_pid_plan(s, counter, pid, kbps1)),
                spec_throttle_pid_plan(s1, c1, pid, kbps2),
            );
            &&& al_unique(m2.classes)
            &&& al_has(m2.classes, id)
            &&& al_get(m2.classes, id) == kbps2
            &&& forall|other: u16| other != id ==> al_has(m2.classes, other)
                == al_has(al_remove(m.classes, id), other)
        }),
{
    let id = pid_identifier(s, counter, pid);
    let s1 = al_insert(s, ThrottlingTarget::Pid(pid), id);
    let c1 = if pid_needs_fresh(s, pid) { (counter + 1) as u16 } else { counter };
    lemma_al_insert(s, ThrottlingTarget::Pid(pid), id);
    assert(pid_identifier(s1, c1, pid) == id);
    let m1 = kernel_run(m, spec_throttle_pid_plan(s, counter, pid, kbps1));
    lemma_throttle_pid_plan_classes(m, s, counter, pid, kbps1);
    lemma_throttle_pid_plan_classes(m1, s1, c1, pid, kbps2);
    lemma_al_remove(m.classes, id);
    lemma_al_insert(al_remove(m.classes, id), id, kbps1);
    lemma_al_remove(m1.classes, id);
    lemma_al_insert(al_remove(m1.classes, id), id, kbps2);
    let m2 = kernel_run(m1, spec_throttle_pid_plan(s1, c1, pid, kbps2));
    assert forall|other: u16| other != id implies al_has(m2.classes, other)
        == al_has(al_remove(m.classes, id), other) by {
    }
}

/// The teardown plan leaves the interface with neither a root nor an
/// ingress queue discipline, whatever stood before.
pub proof fn lemma_teardown_clears(m: KernelModelView)
    ensures
        !kernel_run(m, spec_teardown_plan()).root_qdisc,
        !kernel_run(m, spec_teardown_plan()).ingress_qdisc,
        kernel_run(m, spec_teardown_plan()).classes == Seq::<(u16, usize)>::empty(),
{
    let p = spec_teardown_plan();
    assert(p[0].op == KernelOp::QdiscDelRoot);
    let m1 = kernel_step(m, p[0].op);
    assert(kernel_run(m, p) == kernel_run(m1, p.drop_first()));
    assert(p.drop_first()[0].op == KernelOp::QdiscDelIngress);
    let m2 = kernel_step(m1, KernelOp::QdiscDelIngress);
    assert(kernel_run(m1, p.drop_first()) == kernel_run(m2, p.drop_first().drop_first()));
    assert(p.drop_first().drop_first() =~= Seq::<KernelCommand>::empty());
    assert(kernel_run(m2, p.drop_first().drop_first()) == m2);
    assert(kernel_run(m, p) == m2);
}

/// Constructing a manager and tearing it down leaves the interface
/// with neither a root nor an ingress queue discipline added by it.
pub proof fn lemma_setup_then_teardown(m: KernelModelView,
    config: Option<IngressThrottleConfig>)
    ensures
        !kernel_run(kernel_run(m, spec_setup_plan(config)), spec_teardown_plan()).root_qdisc,
        !kernel_run(kernel_run(m, spec_setup_plan(config)), spec_teardown_plan()).ingress_qdisc,
{
    lemma_teardown_clears(kernel_run(m, spec_setup_plan(config)));
}

/// Throttling a process and then dropping the manager leaves no root
/// or ingress queue discipline and no class behind, whatever the
/// throttle plan installed.
pub proof fn lemma_throttle_then_teardown(m: KernelModelView,
    s: Seq<(ThrottlingTarget, u16)>, counter: u16, pid: u32, kbps: usize)
    ensures
        ({
            let after = kernel_run(
                kernel_run(m, spec_throttle_pid_plan(s, counter, pid, kbps)),
                spec_teardown_plan(),
            );
            &&& !after.root_qdisc
            &&& !after.ingress_qdisc
            &&& after.classes == Seq::<(u16, usize)>::empty()
        }),
{
    lemma_teardown_clears(kernel_run(m, spec_throttle_pid_plan(s, counter, pid, kbps)));
}

} // verus!
