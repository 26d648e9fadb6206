//! Formatted logs: messages that carry a formatted string and a level.
use vstd::prelude::*;

verus! {

/// The log level of a message.
#[derive(Clone, Copy, Debug, PartialEq, Eq, Structural)]
pub enum Level {
    Error,
    Warn,
    Info,
    Debug,
    Trace,
}

/// A borrowed formatted message, as received.
#[derive(Debug)]
pub struct ErgotFmtRx<'a> {
    pub level: Level,
    pub inner: &'a str,
}

/// An owned formatted message, as received.
#[derive(Debug)]
pub struct ErgotFmtRxOwned {
    pub level: Level,
    pub inner: String,
}

} // verus!
