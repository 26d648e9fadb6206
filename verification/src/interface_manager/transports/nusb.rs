//! The nusb USB bulk transport: the receive worker's recovery from stalls, and
//! the send worker's zero-length packets.
use vstd::prelude::*;

verus! {

/// How many receive requests the worker keeps in flight.
pub const IN_FLIGHT_REQS: usize = 4;

/// How many stalls in a row the receive worker tries to recover from.
pub const MAX_STALL_RETRIES: usize = 3;

/// How a bulk transfer completed.
#[derive(Debug, Clone, Copy, PartialEq, Eq, Structural)]
pub enum TransferStatus {
    Complete,
    Stall,
    Unknown,
    Cancelled,
    Disconnected,
    Fault,
}

/// What the receive worker does with a completed transfer.
#[derive(Debug, Clone, Copy, PartialEq, Eq, Structural)]
pub enum RxStep {
    /// Hand the data to the frame processor.
    Deliver,
    /// Cancel and drain the requests in flight, clear the halt, and go on.
    Recover,
    /// Give up: the link is closed.
    Exit,
}

/// How many receive requests to submit when `pending` are in flight.
pub fn refill_count(pending: usize) -> (r: usize)
    ensures
        r == (if pending < IN_FLIGHT_REQS {
            IN_FLIGHT_REQS - pending
        } else {
            0
        }),
{
    IN_FLIGHT_REQS.saturating_sub(pending)
}

/// The receive worker's step for a transfer that completed with `status`, after
/// `consecutive_errs` failed transfers in a row: the new count and the step. A
/// good transfer clears the count; a stall or unknown error is recovered from up
/// to `MAX_STALL_RETRIES` times in a row; any other error ends the worker.
pub fn on_transfer(consecutive_errs: usize, status: TransferStatus) -> (r: (usize, RxStep))
    requires
        consecutive_errs < usize::MAX,
    ensures
        status == TransferStatus::Complete ==> r == (0usize, RxStep::Deliver),
        status != TransferStatus::Complete ==> r.0 == consecutive_errs + 1,
        (status == TransferStatus::Stall || status == TransferStatus::Unknown) ==> r.1 == (if consecutive_errs
            + 1 <= MAX_STALL_RETRIES {
            RxStep::Recover
        } else {
            RxStep::Exit
        }),
        (status == TransferStatus::Cancelled || status == TransferStatus::Disconnected || status
            == TransferStatus::Fault) ==> r.1 == RxStep::Exit,
{
    match status {
        TransferStatus::Complete => (0, RxStep::Deliver),
        _ => {
            let errs = consecutive_errs + 1;
            let recoverable = match status {
                TransferStatus::Stall => errs <= MAX_STALL_RETRIES,
                TransferStatus::Unknown => errs <= MAX_STALL_RETRIES,
                _ => false,
            };
            if recoverable {
                (errs, RxStep::Recover)
            } else {
                (errs, RxStep::Exit)
            }
        },
    }
}

/// Whether a frame of `len` bytes must be followed by a zero-length packet to
/// mark its end: when it fills its last packet exactly, or when the packet size
/// is not known.
pub fn needs_zlp(len: usize, max_usb_frame_size: Option<usize>) -> (r: bool)
    requires
        max_usb_frame_size != Some(0usize),
    ensures
        r == match max_usb_frame_size {
            Some(mps) => len % mps == 0,
            None => true,
        },
{
    match max_usb_frame_size {
        Some(mps) => len % mps == 0,
        None => true,
    }
}

/// Registration error for an edge device.
#[derive(Debug, Clone, Copy, PartialEq, Eq, Structural)]
pub struct EdgeRegistrationError;

/// Registration error for a router.
#[derive(Debug, Clone, Copy, PartialEq, Eq, Structural)]
pub struct RouterRegistrationError;

} // verus!
