//! The tokio COBS stream transport: frames over a byte stream, COBS-framed.
use vstd::prelude::*;

use crate::interface_manager::std_tcp::acc::CobsAccumulator;
use crate::interface_manager::transports::{Liveness, TimeoutAction};
use crate::interface_manager::InterfaceState;

verus! {

/// The stream was silent for the liveness timeout while its interface was in
/// `state`: the liveness step (an active interface becomes inactive, observers
/// are told, the processor is reset, the timer waits for the next frame), and the
/// stream's partial frame is dropped, so that bytes from before the silence are
/// never glued onto the next frame.
pub fn stream_on_timeout(
    liveness: &mut Liveness,
    acc: &mut CobsAccumulator,
    state: Option<InterfaceState>,
) -> (r: TimeoutAction)
    requires
        old(acc).wf(),
    ensures
        r.set_inactive == (state matches Some(InterfaceState::Active { .. })),
        r.notify == r.set_inactive,
        r.reset_processor,
        !final(liveness).spec_have_received(),
        final(liveness).spec_config() == old(liveness).spec_config(),
        final(acc).wf(),
        final(acc).capacity() == old(acc).capacity(),
        final(acc).pending() == Seq::<u8>::empty(),
{
    let action = liveness.on_timeout(state);
    acc.reset();
    action
}

/// Registration error for an edge device.
#[derive(Debug, Clone, Copy, PartialEq, Eq, Structural)]
pub struct EdgeRegistrationError;

/// Registration error for a router.
#[derive(Debug, Clone, Copy, PartialEq, Eq, Structural)]
pub struct RouterRegistrationError;

/// Registration error for the upstream interface of a bridge.
#[derive(Debug, Clone, Copy, PartialEq, Eq, Structural)]
pub struct BridgeUpstreamRegistrationError;

} // verus!
