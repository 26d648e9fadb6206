//! An interface for UDP using tokio.
use vstd::prelude::*;

verus! {

/// An interface implementation for UDP using tokio.
#[derive(Debug, Clone, Copy, PartialEq, Eq, Structural)]
pub struct TokioUdpInterface {}

} // verus!
