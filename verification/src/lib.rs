//! Core of a host-level network traffic observer and shaper.
//!
//! The library turns parsed packets into per-flow statistics keyed by a
//! five-tuple, attaches process and user ownership to flows, rolls the flow
//! table up by process, port or user, and plans the kernel traffic-control
//! commands that enforce bandwidth limits on processes, ports or a whole
//! interface.

pub mod flow;
pub mod flow_table;
pub mod assoc;
pub mod traffic_control;
pub mod kernel_model;
pub mod capture;
pub mod resolver;
pub mod report;
pub mod sort;
pub mod controller;
pub mod modal;
pub mod text;

use vstd::prelude::*;

verus! {

/// The error kinds that the core surfaces to its callers.
#[derive(Clone, Copy, PartialEq, Eq, Structural, Debug)]
pub enum CoreError {
    /// A packet could not be parsed; counted and dropped, never fatal.
    DecodeError,
    /// The requested capture interface does not exist.
    InterfaceNotFound,
    /// The capture device could not be opened.
    CaptureOpenFailed,
    /// Socket enumeration failed; ownership degrades to absent.
    ResolverUnavailable,
    /// A mandatory kernel command returned non-zero.
    ControlInvocationFailed,
    /// A best-effort prerequisite (cgroup facilities, cleanup) is missing.
    ControlPrerequisiteMissing,
    /// An internal invariant would be violated (counter exhaustion, overflow).
    Internal,
}

} // verus!
