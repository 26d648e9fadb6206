//! The packet transport: a combined receive and send worker for transports that
//! carry whole frames (one frame per packet).
use vstd::prelude::*;

verus! {

/// Why the packet worker stopped.
#[derive(Debug)]
pub enum PacketWorkerError<RxE, TxE> {
    /// The receiver returned an error.
    Rx(RxE),
    /// The sender returned an error.
    Tx(TxE),
}

} // verus!
