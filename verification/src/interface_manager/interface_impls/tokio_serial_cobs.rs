//! An interface for serial ports using tokio, with COBS framing.
use vstd::prelude::*;

verus! {

/// An interface implementation for serial ports using tokio, with COBS framing.
#[derive(Debug, Clone, Copy, PartialEq, Eq, Structural)]
pub struct TokioSerialInterface {}

} // verus!
