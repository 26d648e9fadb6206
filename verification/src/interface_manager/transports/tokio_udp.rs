//! The tokio UDP transport.
use vstd::prelude::*;

use crate::interface_manager::transports::Liveness;

verus! {

/// What the UDP receive worker waited for ended with.
#[derive(Debug, Clone, Copy, PartialEq, Eq, Structural)]
pub enum UdpRxEvent {
    /// A datagram of this many bytes arrived.
    Datagram(usize),
    /// Receiving failed.
    RecvError,
    /// The interface was closed.
    Closed,
    /// The liveness timeout ran out (it is armed only once a datagram has come).
    Timeout,
}

/// What the UDP receive worker does next.
#[derive(Debug, Clone, Copy, PartialEq, Eq, Structural)]
pub enum UdpRxAction {
    /// Wait again: nothing usable arrived.
    Retry,
    /// Hand the first this many bytes of the buffer to the frame processor (and
    /// report the sender for peer discovery).
    Process(usize),
    /// Stop the worker; when `set_down`, first take the interface down and tell
    /// observers.
    Stop { set_down: bool },
}

/// One step of the UDP receive worker. An empty datagram or a receive error is
/// retried; a datagram is processed and arms the liveness timeout; a close stops
/// the worker; a liveness timeout takes the interface down (not merely inactive),
/// tells observers, and stops the worker.
pub fn udp_rx_step(liveness: &mut Liveness, ev: UdpRxEvent) -> (r: UdpRxAction)
    requires
        ev == UdpRxEvent::Timeout ==> old(liveness).spec_have_received() && old(
            liveness,
        ).spec_config() is Some,
    ensures
        final(liveness).spec_config() == old(liveness).spec_config(),
        match ev {
            UdpRxEvent::Datagram(n) => if n == 0 {
                r == UdpRxAction::Retry && *final(liveness) == *old(liveness)
            } else {
                r == UdpRxAction::Process(n) && final(liveness).spec_have_received()
            },
            UdpRxEvent::RecvError => r == UdpRxAction::Retry && *final(liveness) == *old(liveness),
            UdpRxEvent::Closed => r == (UdpRxAction::Stop { set_down: false }) && *final(liveness)
                == *old(liveness),
            UdpRxEvent::Timeout => r == (UdpRxAction::Stop { set_down: true }) && *final(liveness)
                == *old(liveness),
        },
{
    match ev {
        UdpRxEvent::Datagram(n) => {
            if n == 0 {
                UdpRxAction::Retry
            } else {
                liveness.on_frame(false);
                UdpRxAction::Process(n)
            }
        },
        UdpRxEvent::RecvError => UdpRxAction::Retry,
        UdpRxEvent::Closed => UdpRxAction::Stop { set_down: false },
        UdpRxEvent::Timeout => UdpRxAction::Stop { set_down: true },
    }
}

/// Registration error for an edge device.
#[derive(Debug, Clone, Copy, PartialEq, Eq, Structural)]
pub struct EdgeRegistrationError;

/// Registration error for a router.
#[derive(Debug, Clone, Copy, PartialEq, Eq, Structural)]
pub struct RouterRegistrationError;

} // verus!
