//! Transports: the workers that move frames between a wire and the net stack.
//!
//! The workers themselves wait on their wires and live with the caller; these
//! are their decisions. The liveness step is shared by the packet, USB and
//! serial/stream workers (a stream worker also drops its partial COBS frame on a
//! timeout); the UDP receive worker instead takes its interface down and stops.
use vstd::prelude::*;

pub mod embassy_net_udp;
pub mod eusb_0_5;
pub mod nusb;
pub mod packet;
pub mod tokio_cobs_stream;
pub mod tokio_serial;
pub mod tokio_udp;

use crate::interface_manager::{InterfaceState, LivenessConfig};

verus! {

/// The network of a newly registered router interface, read from its state: an
/// interface that is not active did not get one, and is to be removed again.
pub fn registered_net_id(state: Option<InterfaceState>) -> (r: Option<u16>)
    ensures
        state matches Some(InterfaceState::Active { net_id, .. }) ==> r == Some(net_id),
        !(state matches Some(InterfaceState::Active { .. })) ==> r is None,
{
    match state {
        Some(InterfaceState::Active { net_id, node_id: _ }) => Some(net_id),
        _ => None,
    }
}

/// Whether a worker that stops must take its interface down: unless the
/// interface is down already, or unknown.
pub fn needs_down(state: Option<InterfaceState>) -> (r: bool)
    ensures
        r == !(state is None || state == Some(InterfaceState::Down)),
{
    match state {
        None => false,
        Some(InterfaceState::Down) => false,
        Some(_) => true,
    }
}

/// What a worker does when its link has been silent for the liveness timeout.
#[derive(Debug, Clone, Copy, PartialEq, Eq, Structural)]
pub struct TimeoutAction {
    /// Set the interface inactive.
    pub set_inactive: bool,
    /// Tell observers that the interface state changed.
    pub notify: bool,
    /// Reset the frame processor, forgetting what it learned from the link.
    pub reset_processor: bool,
}

/// The liveness tracking of a receive worker: with a configuration, once a frame
/// has come, a link that stays silent for the timeout is taken to be inactive.
#[derive(Debug, Clone, Copy, PartialEq, Eq, Structural)]
pub struct Liveness {
    config: Option<LivenessConfig>,
    have_received: bool,
}

impl Liveness {
    /// The configuration.
    pub closed spec fn spec_config(&self) -> Option<LivenessConfig> {
        self.config
    }

    /// Whether a frame has come since the start or the last timeout.
    pub closed spec fn spec_have_received(&self) -> bool {
        self.have_received
    }

    /// Tracking with the given configuration (none: no tracking); no frame has
    /// come yet.
    pub fn new(config: Option<LivenessConfig>) -> (r: Self)
        ensures
            r.spec_config() == config,
            !r.spec_have_received(),
    {
        Liveness { config, have_received: false }
    }

    /// The timeout to wait with, in milliseconds: only with a configuration, and
    /// only once a frame has come.
    pub fn timeout_ms(&self) -> (r: Option<u64>)
        ensures
            r == (if self.spec_have_received() && self.spec_config() is Some {
                Some(self.spec_config()->0.timeout_ms)
            } else {
                None
            }),
    {
        match self.config {
            Some(c) => if self.have_received {
                Some(c.timeout_ms)
            } else {
                None
            },
            None => None,
        }
    }

    /// A frame came; `changed` tells whether processing it changed the interface
    /// state. Observers are to be told exactly then.
    pub fn on_frame(&mut self, changed: bool) -> (notify: bool)
        ensures
            notify == changed,
            final(self).spec_have_received(),
            final(self).spec_config() == old(self).spec_config(),
    {
        self.have_received = true;
        changed
    }

    /// A frame was sent: the worker waits afresh, so the liveness timer starts
    /// over. The result is the timeout to wait with from now on, as
    /// [`Liveness::timeout_ms`] gives it; nothing else changes (a sent frame does
    /// not arm a timer that no received frame has armed).
    pub fn on_send(&mut self) -> (r: Option<u64>)
        ensures
            *final(self) == *old(self),
            r == (if old(self).spec_have_received() && old(self).spec_config() is Some {
                Some(old(self).spec_config()->0.timeout_ms)
            } else {
                None
            }),
    {
        self.timeout_ms()
    }

    /// The link was silent for the timeout while the interface was in `state`.
    /// An active interface becomes inactive, and observers are told; the
    /// processor is reset either way, and the timer waits for the next frame.
    pub fn on_timeout(&mut self, state: Option<InterfaceState>) -> (r: TimeoutAction)
        ensures
            r.set_inactive == (state matches Some(InterfaceState::Active { .. })),
            r.notify == r.set_inactive,
            r.reset_processor,
            !final(self).spec_have_received(),
            final(self).spec_config() == old(self).spec_config(),
    {
        let active = match state {
            Some(InterfaceState::Active { .. }) => true,
            _ => false,
        };
        self.have_received = false;
        TimeoutAction { set_inactive: active, notify: active, reset_processor: true }
    }
}

} // verus!
