//! The modal and throttling-mode selectors that a front end keeps as
//! plain state.

use vstd::prelude::*;

verus! {

/// What a throttling request is keyed by.
#[derive(PartialEq, Eq, Structural, Clone, Copy, Debug)]
pub enum ThrottlingMode {
    /// Throttle by process.
    Process,
    /// Throttle by port.
    Port,
    /// Throttle by user.
    User,
}

/// The currently displayed modal.
#[derive(PartialEq, Eq, Structural, Clone, Copy, Debug)]
pub enum MyModal {
    /// Quit confirmation.
    Quit,
    /// Clear-all confirmation.
    ClearAll,
    /// Details of one connection, by its insertion ordinal.
    ConnectionDetails(usize),
    /// Throttling dialog for one process, port or user.
    Throttling(u32, ThrottlingMode),
}

} // verus!
