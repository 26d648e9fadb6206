//! An interface for TCP using tokio.
use vstd::prelude::*;

verus! {

/// An interface implementation for TCP using tokio.
#[derive(Debug, Clone, Copy, PartialEq, Eq, Structural)]
pub struct TokioTcpInterface {}

} // verus!
