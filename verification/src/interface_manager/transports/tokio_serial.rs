//! The tokio serial transport: a COBS stream over a serial port.
use vstd::prelude::*;

verus! {

/// Registration error for an edge device.
#[derive(Debug, PartialEq)]
pub enum EdgeRegistrationError {
    AlreadyActive,
    Serial(String),
}

/// Registration error for a router.
#[derive(Debug, PartialEq)]
pub enum RouterRegistrationError {
    OutOfNetIds,
    Serial(String),
}

} // verus!
