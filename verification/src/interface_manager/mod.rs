//! The interface manager: the errors, states and shared decisions of profiles.
//!
//! A profile manages the external interfaces of a device. When a message is not
//! definitively local, the net stack offers it to the profile, which either routes
//! it out of one of its interfaces or refuses it with an [`InterfaceSendError`].
use vstd::prelude::*;

use crate::ProtocolError;

pub mod interface_impls;
pub mod null;
pub mod profiles;
pub mod std_tcp;
pub mod std_tcp_router;
pub mod transports;

verus! {

/// Types with a fixed initial value.
pub trait ConstInit: Sized {
    /// The initial value.
    fn init() -> Self;
}

/// How long a link may stay silent, once it has carried a frame, before it is
/// taken to be inactive.
#[derive(Debug, Clone, Copy, PartialEq, Eq, Structural)]
pub struct LivenessConfig {
    pub timeout_ms: u64,
}

/// A successful Net ID assignment or refresh from a seed router.
#[derive(Debug, Clone, Copy, PartialEq, Eq, Structural)]
pub struct SeedNetAssignment {
    /// The newly assigned net id
    pub net_id: u16,
    /// How many seconds from now the assignment expires
    pub expires_seconds: u16,
    /// The longest time that this seed router will grant Net IDs for
    pub max_refresh_seconds: u16,
    /// Do not ask to refresh until fewer than this many seconds remain
    pub min_refresh_seconds: u16,
    /// The token to be used for later refresh requests
    pub refresh_token: u64,
}

/// An error when assigning a net id.
#[derive(Debug, Clone, Copy, PartialEq, Eq, Structural)]
pub enum SeedAssignmentError {
    /// The current profile is not a seed router
    ProfileCantSeed,
    /// The profile is out of Net IDs
    NetIdsExhausted,
    /// The source requesting the Net ID is unknown to this seed router
    UnknownSource,
}

/// An error when refreshing a net id.
#[derive(Debug, Clone, Copy, PartialEq, Eq, Structural)]
pub enum SeedRefreshError {
    /// The current profile is not a seed router
    ProfileCantSeed,
    /// The Net ID to be refreshed is unknown to the seed router
    UnknownNetId,
    /// The Net ID to be refreshed was not assigned as a seed router Net ID
    NotAssigned,
    /// The Net ID to refresh has already expired
    AlreadyExpired,
    /// The given data did not match the seed router table
    BadRequest,
    /// The refresh came earlier than the minimum refresh time allows
    TooSoon,
}

/// Why a profile refused to send a message.
#[derive(Debug, PartialEq, Eq, Clone, Copy, Structural)]
#[non_exhaustive]
pub enum InterfaceSendError {
    /// Refusing to send local destination remotely
    DestinationLocal,
    /// Profile does not know how to route to requested destination
    NoRouteToDest,
    /// Profile found a destination interface, but that interface was full
    InterfaceFull,
    /// An unclassified internal failure
    PlaceholderOhNo,
    /// Destination was an "any" port, but a key was not provided
    AnyPortMissingKey,
    /// TTL has reached the terminal value
    TtlExpired,
    /// The packet would be routed back to its source
    RoutingLoop,
}

/// An error when deregistering an interface.
#[derive(Debug, PartialEq, Eq, Clone, Copy, Structural)]
#[non_exhaustive]
pub enum DeregisterError {
    NoSuchInterface,
}

/// The state of one interface.
#[derive(Clone, Copy, Debug, PartialEq, Eq, Structural)]
pub enum InterfaceState {
    /// Missing sink, no net id
    Down,
    /// Has sink, no net id
    Inactive,
    /// Has sink, has node_id but not net_id
    ActiveLocal { node_id: u8 },
    /// Has sink, has net id
    Active { net_id: u16, node_id: u8 },
}

/// An error when registering a sink.
#[derive(Clone, Copy, Debug, PartialEq, Eq, Structural)]
#[non_exhaustive]
pub enum RegisterSinkError {
    AlreadyActive,
}

/// An error when setting the state of an interface.
#[derive(Clone, Copy, Debug, PartialEq, Eq, Structural)]
#[non_exhaustive]
pub enum SetStateError {
    InterfaceNotFound,
    InvalidNodeId,
}

/// What to do with a message: send it out of one interface, or out of several.
pub enum SendPlan<I, H> {
    /// Send the message out of the interface with this ident, with this header.
    Unicast { ident: I, hdr: H },
    /// Send the message out of each listed interface with its header. The send as
    /// a whole succeeds when any of these succeeds, and fails with `if_none_sent`
    /// otherwise.
    Broadcast { targets: Vec<(I, H)>, if_none_sent: InterfaceSendError },
}

/// The outcome of a broadcast: success when any interface took the message.
pub fn broadcast_outcome(any_good: bool, if_none_sent: InterfaceSendError) -> (r: Result<(), InterfaceSendError>)
    ensures
        any_good ==> r is Ok,
        !any_good ==> r == Err::<(), InterfaceSendError>(if_none_sent),
{
    if any_good {
        Ok(())
    } else {
        Err(if_none_sent)
    }
}

/// The protocol error code that reports an interface send error to a remote peer.
pub open spec fn interface_error_code(e: InterfaceSendError) -> u16 {
    match e {
        InterfaceSendError::DestinationLocal => 11,
        InterfaceSendError::NoRouteToDest => 12,
        InterfaceSendError::InterfaceFull => 13,
        InterfaceSendError::PlaceholderOhNo => 14,
        InterfaceSendError::AnyPortMissingKey => 15,
        InterfaceSendError::TtlExpired => 16,
        InterfaceSendError::RoutingLoop => 17,
    }
}

impl InterfaceSendError {
    /// The protocol error that reports this error to a remote peer.
    pub fn to_error(&self) -> (r: ProtocolError)
        ensures
            r.0 == interface_error_code(*self),
    {
        match self {
            InterfaceSendError::DestinationLocal => ProtocolError::ise_destination_local(),
            InterfaceSendError::NoRouteToDest => ProtocolError::ise_no_route_to_dest(),
            InterfaceSendError::InterfaceFull => ProtocolError::ise_interface_full(),
            InterfaceSendError::PlaceholderOhNo => ProtocolError::ise_internal_error(),
            InterfaceSendError::AnyPortMissingKey => ProtocolError::ise_any_port_missing_key(),
            InterfaceSendError::TtlExpired => ProtocolError::ise_ttl_expired(),
            InterfaceSendError::RoutingLoop => ProtocolError::ise_routing_loop(),
        }
    }
}

/// Distinct interface send errors are reported with distinct protocol error codes,
/// all in the interface range `11..21`.
pub proof fn lemma_interface_error_codes_distinct(a: InterfaceSendError, b: InterfaceSendError)
    ensures
        11 <= interface_error_code(a) < 21,
        interface_error_code(a) == interface_error_code(b) ==> a == b,
{
}

} // verus!
