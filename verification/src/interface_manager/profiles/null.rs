//! The null profile: the simplest profile, which handles no external connections
//! at all. Useful for testing, or where only local communication is wanted.
use vstd::prelude::*;

use crate::interface_manager::{ConstInit, InterfaceSendError, InterfaceState, SetStateError};
use crate::{Header, ProtocolError};

verus! {

/// The null profile.
#[derive(Debug)]
pub struct Null {
    _priv: (),
}

impl ConstInit for Null {
    fn init() -> Self {
        Null { _priv: () }
    }
}

/// The answer of the null profile to a message with the header `hdr`: a local
/// destination is local; there is no route to anything else.
pub open spec fn null_profile_spec(hdr: Header) -> InterfaceSendError {
    if hdr.dst.network_id == 0 && hdr.dst.node_id == 0 {
        InterfaceSendError::DestinationLocal
    } else {
        InterfaceSendError::NoRouteToDest
    }
}

impl Null {
    /// Send a message: always refused, as [`null_profile_spec`] says.
    pub fn send(&mut self, hdr: &Header, data: &[u8]) -> (r: Result<(), InterfaceSendError>)
        ensures
            r == Err::<(), InterfaceSendError>(null_profile_spec(*hdr)),
    {
        if hdr.dst.net_node_any() {
            Err(InterfaceSendError::DestinationLocal)
        } else {
            Err(InterfaceSendError::NoRouteToDest)
        }
    }

    /// Send a pre-serialized message: always refused, as [`null_profile_spec`] says.
    pub fn send_raw(&mut self, hdr: &Header, hdr_raw: &[u8], data: &[u8]) -> (r: Result<
        (),
        InterfaceSendError,
    >)
        ensures
            r == Err::<(), InterfaceSendError>(null_profile_spec(*hdr)),
    {
        if hdr.dst.net_node_any() {
            Err(InterfaceSendError::DestinationLocal)
        } else {
            Err(InterfaceSendError::NoRouteToDest)
        }
    }

    /// Send a protocol error: always refused, as [`null_profile_spec`] says.
    pub fn send_err(&mut self, hdr: &Header, err: ProtocolError) -> (r: Result<(), InterfaceSendError>)
        ensures
            r == Err::<(), InterfaceSendError>(null_profile_spec(*hdr)),
    {
        if hdr.dst.net_node_any() {
            Err(InterfaceSendError::DestinationLocal)
        } else {
            Err(InterfaceSendError::NoRouteToDest)
        }
    }

    /// The state of an interface: the null profile has none.
    pub fn interface_state(&mut self, ident: ()) -> (r: Option<InterfaceState>)
        ensures
            r is None,
    {
        None
    }

    /// Set the state of an interface: the null profile has none to set.
    pub fn set_interface_state(&mut self, ident: (), state: InterfaceState) -> (r: Result<(), SetStateError>)
        ensures
            r == Err::<(), SetStateError>(SetStateError::InterfaceNotFound),
    {
        Err(SetStateError::InterfaceNotFound)
    }
}

} // verus!
