//! The "edge" device profile.
//!
//! Edge devices sit on the edge of a network: they have a single upstream
//! connection to a bridge or seed router. They start out not knowing their network
//! ID, and when a frame is sent to them they take its destination network as
//! theirs. They send every outgoing message blindly upstream.
//!
//! These are the profile's decisions; the interface itself, which holds the sink
//! and its state, lives with the caller.
use vstd::prelude::*;

pub mod tokio_stream;
pub mod tokio_tcp;
pub mod tokio_udp;

use crate::interface_manager::{InterfaceSendError, InterfaceState};
use crate::{Address, Header, HeaderSeq};

verus! {

/// The node ID of the router (the upstream side) on a point-to-point link.
pub const CENTRAL_NODE_ID: u8 = 1;

/// The node ID of the edge device on a point-to-point link.
pub const EDGE_NODE_ID: u8 = 2;

/// Why a net id could not be set.
#[derive(Debug, Clone, Copy, PartialEq, Eq, Structural)]
pub enum SetNetIdError {
    CantSetZero,
    NoActiveSink,
}

/// A new connection may take over the interface only when it is down (or not
/// known at all).
pub open spec fn registration_open(state: Option<InterfaceState>) -> bool {
    state is None || state == Some(InterfaceState::Down)
}

/// Whether a new connection may take over the interface, as
/// [`registration_open`] says.
pub fn can_register(state: Option<InterfaceState>) -> (r: bool)
    ensures
        r == registration_open(state),
{
    match state {
        None => true,
        Some(InterfaceState::Down) => true,
        Some(_) => false,
    }
}

/// Send a locally originated message upstream: one hop is taken off its
/// time-to-live, and a message with none left is refused.
pub fn send(hdr: &Header) -> (r: Result<Header, InterfaceSendError>)
    ensures
        hdr.ttl == 0 ==> r == Err::<Header, InterfaceSendError>(InterfaceSendError::TtlExpired),
        hdr.ttl > 0 ==> r == Ok::<Header, InterfaceSendError>(Header { ttl: (hdr.ttl - 1) as u8, ..*hdr }),
{
    let mut hdr = *hdr;
    hdr.decrement_ttl()?;
    Ok(hdr)
}

/// Send a protocol error upstream. An error that came in from the interface
/// (`from_interface`) would go back where it came from, and is refused; otherwise
/// as [`send`].
pub fn send_err(hdr: &Header, from_interface: bool) -> (r: Result<Header, InterfaceSendError>)
    ensures
        from_interface ==> r == Err::<Header, InterfaceSendError>(InterfaceSendError::RoutingLoop),
        !from_interface && hdr.ttl == 0 ==> r == Err::<Header, InterfaceSendError>(
            InterfaceSendError::TtlExpired,
        ),
        !from_interface && hdr.ttl > 0 ==> r == Ok::<Header, InterfaceSendError>(
            Header { ttl: (hdr.ttl - 1) as u8, ..*hdr },
        ),
{
    if from_interface {
        return Err(InterfaceSendError::RoutingLoop);
    }
    send(hdr)
}

/// Forward a received message: an edge device has only the one interface, so a
/// received message could only go back where it came from, and is refused.
pub fn send_raw(hdr: &HeaderSeq) -> (r: Result<(), InterfaceSendError>)
    ensures
        r == Err::<(), InterfaceSendError>(InterfaceSendError::RoutingLoop),
{
    Err(InterfaceSendError::RoutingLoop)
}

/// Whether a received frame makes the device take its destination network as its
/// own: when it has none yet, or when the frame names another (nonzero) network.
pub open spec fn takes_net(net_id: Option<u16>, hdr: HeaderSeq) -> bool {
    net_id is None || (hdr.dst.network_id != 0 && net_id != Some(hdr.dst.network_id))
}

/// Whether a received frame makes the device take its destination network as its
/// own, as [`takes_net`] says.
pub fn should_take_net(net_id: Option<u16>, hdr: &HeaderSeq) -> (r: bool)
    ensures
        r == takes_net(net_id, *hdr),
{
    match net_id {
        None => true,
        Some(n) => hdr.dst.network_id != 0 && n != hdr.dst.network_id,
    }
}

/// The interface state a device sets when a received frame makes it take the
/// frame's destination network ([`takes_net`]): active on that network as the
/// edge node. `None` when the frame does not make it take a network.
pub fn take_net_state(net_id: Option<u16>, hdr: &HeaderSeq) -> (r: Option<InterfaceState>)
    ensures
        takes_net(net_id, *hdr) ==> r == Some(
            InterfaceState::Active { net_id: hdr.dst.network_id, node_id: EDGE_NODE_ID },
        ),
        !takes_net(net_id, *hdr) ==> r is None,
{
    if should_take_net(net_id, hdr) {
        Some(InterfaceState::Active { net_id: hdr.dst.network_id, node_id: EDGE_NODE_ID })
    } else {
        None
    }
}

/// The device's network after a received frame, given whether the profile
/// accepted the state of [`take_net_state`] (when there was one to set): the
/// frame's destination network once accepted, the old one when nothing was to be
/// taken, and `None` when the state was refused: the frame is then dropped.
pub fn net_after_frame(net_id: Option<u16>, hdr: &HeaderSeq, accepted: bool) -> (r: Option<
    Option<u16>,
>)
    ensures
        !takes_net(net_id, *hdr) ==> r == Some(net_id),
        takes_net(net_id, *hdr) && accepted ==> r == Some(Some(hdr.dst.network_id)),
        takes_net(net_id, *hdr) && !accepted ==> r is None,
{
    if should_take_net(net_id, hdr) {
        if accepted {
            Some(Some(hdr.dst.network_id))
        } else {
            None
        }
    } else {
        Some(net_id)
    }
}

/// What becomes of a received frame once the device's network is `net_id`: a
/// frame whose source names no network comes from the other end of the link, so
/// it gets this network; one from node 0 (a local packet seen remotely) or from
/// the edge node itself (spoofed) is dropped. Without a network, the frame passes
/// as it is.
pub open spec fn frame_spec(net_id: Option<u16>, hdr: HeaderSeq) -> Option<HeaderSeq> {
    match net_id {
        Some(net) => if hdr.src.network_id == 0 {
            if hdr.src.node_id == 0 || hdr.src.node_id == EDGE_NODE_ID {
                None
            } else {
                Some(HeaderSeq { src: Address { network_id: net, ..hdr.src }, ..hdr })
            }
        } else {
            Some(hdr)
        },
        None => Some(hdr),
    }
}

/// Process the header of one received frame, as [`frame_spec`] says: the header
/// to hand to the net stack, or `None` when the frame is dropped.
pub fn process_frame(net_id: Option<u16>, hdr: &HeaderSeq) -> (r: Option<HeaderSeq>)
    ensures
        r == frame_spec(net_id, *hdr),
{
    let mut hdr = *hdr;
    if let Some(net) = net_id {
        if hdr.src.network_id == 0 {
            if hdr.src.node_id == 0 {
                return None;
            }
            if hdr.src.node_id == EDGE_NODE_ID {
                return None;
            }
            hdr.src.network_id = net;
        }
    }
    Some(hdr)
}

/// Once a device has taken a frame's destination network as its own, it does not
/// take it again from a frame for the same network, and the frame's remote source
/// (if it names no network) is placed on that network.
pub proof fn lemma_adopted_net_sticks(hdr: HeaderSeq)
    requires
        hdr.dst.network_id != 0,
    ensures
        !takes_net(Some(hdr.dst.network_id), hdr),
        hdr.src.network_id == 0 && hdr.src.node_id != 0 && hdr.src.node_id != EDGE_NODE_ID
            ==> (frame_spec(Some(hdr.dst.network_id), hdr) matches Some(h) && h.src.network_id
            == hdr.dst.network_id && h.src.node_id == hdr.src.node_id && h.dst == hdr.dst),
{
}

} // verus!
