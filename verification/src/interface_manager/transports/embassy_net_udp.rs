//! The embassy-net UDP transport: UDP datagrams carry whole frames.
use vstd::prelude::*;

verus! {

/// The largest frame that fits in one UDP datagram over Ethernet: the Ethernet
/// payload less the UDP and IPv4 headers.
pub const UDP_OVER_ETH_ERGOT_FRAME_SIZE_MAX: usize = 1500 - 8 - 20;

/// The interface is already in use by another socket.
#[derive(Debug, Clone, Copy, PartialEq, Eq, Structural)]
pub struct SocketAlreadyActive;

} // verus!
