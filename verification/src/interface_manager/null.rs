//! The null interface manager: no external interfaces at all.
use vstd::prelude::*;

use crate::interface_manager::{ConstInit, InterfaceSendError};
use crate::{Address, Key};

verus! {

/// An interface manager without interfaces: nothing leaves the device.
#[derive(Debug)]
pub struct NullInterfaceManager {
    _priv: (),
}

impl ConstInit for NullInterfaceManager {
    fn init() -> Self {
        NullInterfaceManager { _priv: () }
    }
}

/// The answer of the null interface manager to a message for `dst`: a local
/// destination is local; anything else it cannot send.
pub open spec fn null_send_spec(dst: Address) -> InterfaceSendError {
    if dst.network_id == 0 && dst.node_id == 0 {
        InterfaceSendError::DestinationLocal
    } else {
        InterfaceSendError::PlaceholderOhNo
    }
}

impl NullInterfaceManager {
    /// Send a message: always refused, as [`null_send_spec`] says.
    pub fn send(&mut self, src: Address, dst: Address, key: Option<Key>, data: &[u8]) -> (r: Result<
        (),
        InterfaceSendError,
    >)
        ensures
            r == Err::<(), InterfaceSendError>(null_send_spec(dst)),
    {
        if dst.net_node_any() {
            Err(InterfaceSendError::DestinationLocal)
        } else {
            Err(InterfaceSendError::PlaceholderOhNo)
        }
    }

    /// Send a pre-serialized message: always refused, as [`null_send_spec`] says.
    pub fn send_raw(&mut self, src: Address, dst: Address, key: Option<Key>, data: &[u8]) -> (r:
        Result<(), InterfaceSendError>)
        ensures
            r == Err::<(), InterfaceSendError>(null_send_spec(dst)),
    {
        if dst.net_node_any() {
            Err(InterfaceSendError::DestinationLocal)
        } else {
            Err(InterfaceSendError::PlaceholderOhNo)
        }
    }
}

} // verus!
