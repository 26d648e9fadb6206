//! An edge device profile over a generic async stream connection.
use vstd::prelude::*;

use crate::interface_manager::profiles::direct_edge::{can_register, registration_open};
use crate::interface_manager::InterfaceState;

verus! {

/// The interface is already in use by another connection.
#[derive(Debug, Clone, Copy, PartialEq, Eq, Structural)]
pub struct SocketAlreadyActive;

/// Check that a new connection may take over the interface in state `state`,
/// which it then enters as inactive, until a frame names its network.
pub fn check_registration(state: Option<InterfaceState>) -> (r: Result<InterfaceState, SocketAlreadyActive>)
    ensures
        registration_open(state) ==> r == Ok::<InterfaceState, SocketAlreadyActive>(InterfaceState::Inactive),
        !registration_open(state) ==> r == Err::<InterfaceState, SocketAlreadyActive>(SocketAlreadyActive),
{
    if can_register(state) {
        Ok(InterfaceState::Inactive)
    } else {
        Err(SocketAlreadyActive)
    }
}

} // verus!
