//! defmt logs: messages that carry raw, already encoded defmt frames, which the
//! receiver decodes with the sender's ELF file.
use vstd::prelude::*;

verus! {

/// A borrowed defmt frame for sending.
#[derive(Debug, Clone, Copy)]
pub struct ErgotDefmtTx<'a> {
    /// Raw defmt frame bytes (already encoded)
    pub frame: &'a [u8],
}

/// A borrowed defmt frame, as received.
#[derive(Debug)]
pub struct ErgotDefmtRx<'a> {
    /// Raw defmt frame bytes (encoded)
    pub frame: &'a [u8],
}

/// An owned defmt frame, as received.
#[derive(Debug)]
pub struct ErgotDefmtRxOwned {
    /// Raw defmt frame bytes (encoded)
    pub frame: Vec<u8>,
}

} // verus!
