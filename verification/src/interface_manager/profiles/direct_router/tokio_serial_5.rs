//! Direct Router interfaces over serial ports.
use vstd::prelude::*;

verus! {

/// Why an interface could not be registered.
#[derive(Debug, PartialEq)]
pub enum Error {
    OutOfNetIds,
    Serial(String),
}

} // verus!
