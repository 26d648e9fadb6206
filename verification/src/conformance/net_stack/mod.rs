//! Net stack conformance: the headers and results of the conformance cases.
//!
//! A message for port 255 is a broadcast; any other is a unicast. A unicast to
//! `0:0.*` is offered to the sockets only; any other unicast is offered to the
//! profile. A profile's success is final; its "destination local" sends the
//! message to the sockets; its other errors are the send's. Offered to the
//! sockets, a message for a port other than 0 goes to the socket with exactly that
//! port; one for port 0 must carry the any/all appendix and goes to the socket
//! whose metadata match; without a socket the send has no route. These are the
//! steps of [`crate::net_stack`].
use vstd::prelude::*;

pub mod mocks;

use crate::interface_manager::InterfaceSendError;
use crate::{Address, FrameKind, Header, NetStackSendError, DEFAULT_TTL};

verus! {

/// A unicast to a specific port of a remote node.
pub fn unicast_specific_port() -> (r: Header)
    ensures
        r.src == (Address { network_id: 0, node_id: 0, port_id: 0 }),
        r.dst == (Address { network_id: 10, node_id: 10, port_id: 10 }),
        r.any_all is None,
        r.seq_no is None,
        r.kind.0 == 0,
        r.ttl == DEFAULT_TTL,
{
    Header {
        src: Address::unknown(),
        dst: Address { network_id: 10, node_id: 10, port_id: 10 },
        any_all: None,
        seq_no: None,
        kind: FrameKind::reserved(),
        ttl: DEFAULT_TTL,
    }
}

/// Success.
pub fn ok<E>() -> (r: Result<(), E>)
    ensures
        r is Ok,
{
    Ok(())
}

/// The interface reports this error.
pub fn interface_err(err: InterfaceSendError) -> (r: Result<(), InterfaceSendError>)
    ensures
        r == Err::<(), InterfaceSendError>(err),
{
    Err(err)
}

/// The net stack reports that the interface reported this error.
pub fn stack_interface_err(err: InterfaceSendError) -> (r: Result<(), NetStackSendError>)
    ensures
        r == Err::<(), NetStackSendError>(NetStackSendError::InterfaceSend(err)),
{
    Err(NetStackSendError::InterfaceSend(err))
}

/// The net stack reports this error.
pub fn stack_err(err: NetStackSendError) -> (r: Result<(), NetStackSendError>)
    ensures
        r == Err::<(), NetStackSendError>(err),
{
    Err(err)
}

/// The interface reports no route.
pub fn inoroute() -> (r: Result<(), InterfaceSendError>)
    ensures
        r == Err::<(), InterfaceSendError>(InterfaceSendError::NoRouteToDest),
{
    interface_err(InterfaceSendError::NoRouteToDest)
}

/// The net stack reports that the interface reported no route.
pub fn sinoroute() -> (r: Result<(), NetStackSendError>)
    ensures
        r == Err::<(), NetStackSendError>(
            NetStackSendError::InterfaceSend(InterfaceSendError::NoRouteToDest),
        ),
{
    stack_interface_err(InterfaceSendError::NoRouteToDest)
}

/// The interface reports that it is full.
pub fn ifull() -> (r: Result<(), InterfaceSendError>)
    ensures
        r == Err::<(), InterfaceSendError>(InterfaceSendError::InterfaceFull),
{
    interface_err(InterfaceSendError::InterfaceFull)
}

/// The net stack reports that the interface reported that it is full.
pub fn sifull() -> (r: Result<(), NetStackSendError>)
    ensures
        r == Err::<(), NetStackSendError>(
            NetStackSendError::InterfaceSend(InterfaceSendError::InterfaceFull),
        ),
{
    stack_interface_err(InterfaceSendError::InterfaceFull)
}

/// The interface reports that the destination is local.
pub fn ilocal() -> (r: Result<(), InterfaceSendError>)
    ensures
        r == Err::<(), InterfaceSendError>(InterfaceSendError::DestinationLocal),
{
    interface_err(InterfaceSendError::DestinationLocal)
}

/// The net stack reports no route (not from the interface).
pub fn snoroute() -> (r: Result<(), NetStackSendError>)
    ensures
        r == Err::<(), NetStackSendError>(NetStackSendError::NoRoute),
{
    stack_err(NetStackSendError::NoRoute)
}

} // verus!
