//! Direct Router interfaces over nusb USB bulk connections.
use vstd::prelude::*;

verus! {

/// Why an interface could not be registered.
#[derive(Debug, Clone, Copy, PartialEq, Eq, Structural)]
pub enum Error {
    OutOfNetIds,
}

} // verus!
