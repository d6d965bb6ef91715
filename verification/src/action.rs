//! Actions dispatched by the user interface and consumed by the store, and
//! the reason the event loop stops.

use vstd::prelude::*;

verus! {

/// A user-initiated action. Login and registration form contents are read
/// from the application state, not carried in the action.
#[derive(Debug, Clone, Copy, PartialEq, Eq, Structural)]
pub enum Action {
    Noop,
    Login,
    ShowRegister,
    Register,
    PreExit,
    CancelExit,
    Exit,
}

/// Why the event loop ended.
#[derive(Debug, Clone, Copy, PartialEq, Eq, Structural)]
pub enum Interrupted {
    UserInt,
    OsSigInt,
}

} // verus!
