//! An interface for generic tokio async streams.
use vstd::prelude::*;

verus! {

/// An interface implementation for generic tokio async streams.
#[derive(Debug, Clone, Copy, PartialEq, Eq, Structural)]
pub struct TokioStreamInterface {}

} // verus!
