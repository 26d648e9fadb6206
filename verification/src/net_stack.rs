//! The net stack's send decisions.
//!
//! The net stack sends a message either to local sockets or through the profile.
//! These functions are its decisions, step by step, as the net stack conformance
//! rules lay them down; the sockets and the profile live with the caller, who
//! hands each step's outcome to the next.
use vstd::prelude::*;

use crate::interface_manager::{interface_error_code, InterfaceSendError};
use crate::{Address, AnyAllAppendix, FrameKind, Header, Key, ProtocolError, DEFAULT_TTL};

verus! {

/// Why a socket refused a message.
#[derive(Debug, Clone, Copy, PartialEq, Eq, Structural)]
pub enum SocketSendError {
    NoSpace,
    DeserFailed,
    TypeMismatch,
    WhatTheHell,
}

/// Why the net stack could not send a message.
#[derive(Debug, Clone, Copy, PartialEq, Eq, Structural)]
pub enum NetStackSendError {
    SocketSend(SocketSendError),
    InterfaceSend(InterfaceSendError),
    NoRoute,
    AnyPortMissingKey,
    WrongPortKind,
    AnyPortNotUnique,
    AllPortMissingKey,
    WouldDeadlock,
}

/// Why a request got no response.
#[derive(Debug, Clone, Copy, PartialEq, Eq, Structural)]
pub enum ReqRespError {
    Local(NetStackSendError),
    Remote(ProtocolError),
}

/// The protocol error code that reports a net stack send error to a remote peer.
pub open spec fn net_stack_error_code(e: NetStackSendError) -> u16 {
    match e {
        NetStackSendError::SocketSend(s) => match s {
            SocketSendError::NoSpace => 1,
            SocketSendError::DeserFailed => 2,
            SocketSendError::TypeMismatch => 3,
            SocketSendError::WhatTheHell => 4,
        },
        NetStackSendError::InterfaceSend(i) => interface_error_code(i),
        NetStackSendError::NoRoute => 21,
        NetStackSendError::AnyPortMissingKey => 22,
        NetStackSendError::WrongPortKind => 23,
        NetStackSendError::AnyPortNotUnique => 24,
        NetStackSendError::AllPortMissingKey => 25,
        NetStackSendError::WouldDeadlock => 26,
    }
}

impl NetStackSendError {
    /// The protocol error that reports this error to a remote peer.
    pub fn to_error(&self) -> (r: ProtocolError)
        ensures
            r.0 == net_stack_error_code(*self),
    {
        match self {
            NetStackSendError::SocketSend(s) => match s {
                SocketSendError::NoSpace => ProtocolError::sse_no_space(),
                SocketSendError::DeserFailed => ProtocolError::sse_deser_failed(),
                SocketSendError::TypeMismatch => ProtocolError::sse_type_mismatch(),
                SocketSendError::WhatTheHell => ProtocolError::sse_what_the_hell(),
            },
            NetStackSendError::InterfaceSend(i) => i.to_error(),
            NetStackSendError::NoRoute => ProtocolError::nsse_no_route(),
            NetStackSendError::AnyPortMissingKey => ProtocolError::nsse_any_port_missing_key(),
            NetStackSendError::WrongPortKind => ProtocolError::nsse_wrong_port_kind(),
            NetStackSendError::AnyPortNotUnique => ProtocolError::nsse_any_port_not_unique(),
            NetStackSendError::AllPortMissingKey => ProtocolError::nsse_all_port_missing_key(),
            NetStackSendError::WouldDeadlock => ProtocolError::nsse_would_deadlock(),
        }
    }
}

/// Where a message is offered first.
#[derive(Debug, Clone, Copy, PartialEq, Eq, Structural)]
pub enum FirstOffer {
    /// A broadcast (to port 255): offered to every socket, then to the profile.
    Broadcast,
    /// A unicast to `0:0.*`, the local device: offered to the sockets only.
    Sockets,
    /// Any other unicast: offered to the profile.
    Profile,
}

/// Where a message is offered first: a message for port 255 is a broadcast; a
/// unicast to network 0, node 0 is local; any other unicast goes to the profile.
pub fn first_offer(hdr: &Header) -> (r: FirstOffer)
    ensures
        hdr.dst.port_id == 255 ==> r == FirstOffer::Broadcast,
        hdr.dst.port_id != 255 && hdr.dst.network_id == 0 && hdr.dst.node_id == 0 ==> r
            == FirstOffer::Sockets,
        hdr.dst.port_id != 255 && !(hdr.dst.network_id == 0 && hdr.dst.node_id == 0) ==> r
            == FirstOffer::Profile,
{
    if hdr.dst.port_id == 255 {
        FirstOffer::Broadcast
    } else if hdr.dst.net_node_any() {
        FirstOffer::Sockets
    } else {
        FirstOffer::Profile
    }
}

/// What a unicast comes to after the profile answered `profile`: the send's
/// result, or `None` when the message is to be offered to the sockets. A success
/// is final; "destination local" sends the message to the sockets; any other
/// error is the send's error.
pub fn after_profile(profile: Result<(), InterfaceSendError>) -> (r: Option<Result<(), NetStackSendError>>)
    ensures
        profile is Ok ==> r == Some(Ok::<(), NetStackSendError>(())),
        profile == Err::<(), InterfaceSendError>(InterfaceSendError::DestinationLocal) ==> r is None,
        profile is Err && profile != Err::<(), InterfaceSendError>(InterfaceSendError::DestinationLocal)
            ==> r == Some(Err::<(), NetStackSendError>(NetStackSendError::InterfaceSend(profile->Err_0))),
{
    match profile {
        Ok(()) => Some(Ok(())),
        Err(InterfaceSendError::DestinationLocal) => None,
        Err(e) => Some(Err(NetStackSendError::InterfaceSend(e))),
    }
}

/// Whether a unicast offered to the sockets may be searched for at all: a message
/// for the "any" port (0) must carry the any/all appendix, to be matched by key.
pub fn socket_search_allowed(hdr: &Header) -> (r: Result<(), NetStackSendError>)
    ensures
        hdr.dst.port_id == 0 && hdr.any_all is None ==> r == Err::<(), NetStackSendError>(
            NetStackSendError::AnyPortMissingKey,
        ),
        !(hdr.dst.port_id == 0 && hdr.any_all is None) ==> r is Ok,
{
    if hdr.dst.port_id == 0 && hdr.any_all.is_none() {
        Err(NetStackSendError::AnyPortMissingKey)
    } else {
        Ok(())
    }
}

/// What a unicast offered to the sockets comes to: the result of the matching
/// socket's send (`socket`, `None` when no socket matched), or no route.
pub fn after_sockets(socket: Option<Result<(), SocketSendError>>) -> (r: Result<(), NetStackSendError>)
    ensures
        socket is None ==> r == Err::<(), NetStackSendError>(NetStackSendError::NoRoute),
        socket == Some(Ok::<(), SocketSendError>(())) ==> r is Ok,
        socket matches Some(Err(e)) ==> r == Err::<(), NetStackSendError>(NetStackSendError::SocketSend(e)),
{
    match socket {
        None => Err(NetStackSendError::NoRoute),
        Some(Ok(())) => Ok(()),
        Some(Err(e)) => Err(NetStackSendError::SocketSend(e)),
    }
}

/// A broadcast succeeds when any socket or the profile took it.
pub fn broadcast_result(any_socket: bool, profile: Result<(), InterfaceSendError>) -> (r: Result<
    (),
    NetStackSendError,
>)
    ensures
        (any_socket || profile is Ok) <==> r is Ok,
        !any_socket && profile is Err ==> r == Err::<(), NetStackSendError>(
            NetStackSendError::InterfaceSend(profile->Err_0),
        ),
{
    if any_socket {
        return Ok(());
    }
    match profile {
        Ok(()) => Ok(()),
        Err(e) => Err(NetStackSendError::InterfaceSend(e)),
    }
}

/// The header of a request to the endpoint at `dst`, whose request type has the
/// key `key`, from the local socket on port `port` that awaits the response.
pub fn request_header(port: u8, dst: Address, key: Key) -> (r: Header)
    ensures
        r.src == (Address { network_id: 0, node_id: 0, port_id: port }),
        r.dst == dst,
        r.any_all == Some(AnyAllAppendix { key, nash: None }),
        r.seq_no is None,
        r.kind.0 == 1,
        r.ttl == DEFAULT_TTL,
{
    Header {
        src: Address { network_id: 0, node_id: 0, port_id: port },
        dst,
        any_all: Some(AnyAllAppendix { key, nash: None }),
        seq_no: None,
        kind: FrameKind::endpoint_req(),
        ttl: DEFAULT_TTL,
    }
}

/// The header of a broadcast of a message on the topic with the key `key`: from
/// the local device to every device's "all" port.
pub fn topic_broadcast_header(key: Key) -> (r: Header)
    ensures
        r.src == (Address { network_id: 0, node_id: 0, port_id: 0 }),
        r.dst == (Address { network_id: 0, node_id: 0, port_id: 255 }),
        r.any_all == Some(AnyAllAppendix { key, nash: None }),
        r.seq_no is None,
        r.kind.0 == 3,
        r.ttl == DEFAULT_TTL,
{
    Header {
        src: Address { network_id: 0, node_id: 0, port_id: 0 },
        dst: Address { network_id: 0, node_id: 0, port_id: 255 },
        any_all: Some(AnyAllAppendix { key, nash: None }),
        seq_no: None,
        kind: FrameKind::topic_msg(),
        ttl: DEFAULT_TTL,
    }
}

} // verus!
