//! An edge device profile over UDP. A target binds without connecting and learns
//! its peer from the first packet; a controller uses a connected socket and is
//! the central node of network 1.
use vstd::prelude::*;

use crate::interface_manager::profiles::direct_edge::{can_register, registration_open, CENTRAL_NODE_ID};
use crate::interface_manager::InterfaceState;

verus! {

/// The interface is already in use by another socket.
#[derive(Debug, Clone, Copy, PartialEq, Eq, Structural)]
pub struct SocketAlreadyActive;

/// The role of the local end of a UDP link.
#[derive(Debug, Clone, Copy, PartialEq, Eq, Structural)]
pub enum InterfaceKind {
    Target,
    Controller,
}

/// The state a new socket starts the interface in, and the network it knows
/// from the start: a controller is the central node of network 1; a target is
/// inactive and knows no network until a frame names it.
pub fn initial_state(kind: InterfaceKind) -> (r: (InterfaceState, Option<u16>))
    ensures
        kind == InterfaceKind::Controller ==> r == (
            InterfaceState::Active { net_id: 1, node_id: CENTRAL_NODE_ID },
            Some(1u16),
        ),
        kind == InterfaceKind::Target ==> r == (InterfaceState::Inactive, None::<u16>),
{
    match kind {
        InterfaceKind::Controller => (InterfaceState::Active { net_id: 1, node_id: CENTRAL_NODE_ID }, Some(1)),
        InterfaceKind::Target => (InterfaceState::Inactive, None),
    }
}

/// Check that a new socket of the given kind may take over the interface in
/// state `state`: the state it then enters and the network it knows.
pub fn check_registration(state: Option<InterfaceState>, kind: InterfaceKind) -> (r: Result<
    (InterfaceState, Option<u16>),
    SocketAlreadyActive,
>)
    ensures
        registration_open(state) ==> r == Ok::<(InterfaceState, Option<u16>), SocketAlreadyActive>(
            if kind == InterfaceKind::Controller {
                (InterfaceState::Active { net_id: 1, node_id: CENTRAL_NODE_ID }, Some(1u16))
            } else {
                (InterfaceState::Inactive, None::<u16>)
            },
        ),
        !registration_open(state) ==> r == Err::<(InterfaceState, Option<u16>), SocketAlreadyActive>(
            SocketAlreadyActive,
        ),
{
    if can_register(state) {
        Ok(initial_state(kind))
    } else {
        Err(SocketAlreadyActive)
    }
}

} // verus!
