//! illumos, through the `ugen` driver.

use vstd::prelude::*;

use crate::platform::errno::{self, Errno, ErrnoKind};
use crate::transfer::TransferError;

pub mod device;
pub mod enumeration;
pub mod transfer;

verus! {

/// Bus number and address of a device
#[derive(Copy, Clone, Debug, Hash, PartialEq, Eq, Structural)]
pub struct DeviceId {
    pub bus: u8,
    pub addr: u8,
}

/// The transfer error that a status of `ugen` stands for, by what `usb_ugen.h` has it for.
pub open spec fn ugen_error_of(e: u32) -> TransferError {
    // CRC timeout detected, command timed out, request was interrupted
    if e == 0x01 || e == 0x0c || e == 0x47 {
        TransferError::Cancelled
    // endpoint stalled
    } else if e == 0x04 {
        TransferError::Stall
    // device not responding, suspended or resumed, disconnected
    } else if e == 0x05 || e == 0x43 || e == 0x44 {
        TransferError::Disconnected
    // data size exceeded, less data received, buffer size exceeded, buffer under run, not
    // accessed by hardware, request was invalid
    } else if 0x08 <= e <= 0x0b || e == 0x0d || e == 0x46 {
        TransferError::InvalidArgument
    // bit-stuffing violation, data toggle mismatch, PID check failure, unexpected PID,
    // unspecified error, no bandwidth, hardware error, interrupt buffer full, no resources,
    // failed to restart polling, isochronous errors
    } else if e == 0x02 || e == 0x03 || e == 0x06 || e == 0x07 || e == 0x0e || e == 0x41 || e
        == 0x42 || e == 0x45 || e == 0x48 || e == 0x49 || 0x50 <= e <= 0x52 {
        TransferError::Fault
    } else {
        TransferError::Unknown(e)
    }
}

/// A status of `ugen` stands for the transfer error that says the same, and one that it has no name for
/// comes out as it is.
pub proof fn law_statuses_have_transfer_errors(e: u32)
    ensures
        ({
            let r = ugen_error_of(e);
            &&& r == TransferError::Cancelled <==> e == 1 || e == 12 || e == 71
            &&& r == TransferError::Stall <==> e == 4
            &&& r == TransferError::Disconnected <==> e == 5 || e == 67 || e == 68
            &&& r == TransferError::InvalidArgument <==> 8 <= e <= 11 || e == 13 || e == 70
            &&& r == TransferError::Fault <==> 2 <= e <= 3 || 6 <= e <= 7 || e == 14 || 65 <= e <= 66
                || e == 69 || 72 <= e <= 73 || 80 <= e <= 82
            &&& r is Unknown ==> r == TransferError::Unknown(e)
        }),
{
}

/// The transfer error that a status of `ugen` stands for.
pub fn ugen_to_transfer_error(e: u32) -> (r: TransferError)
    ensures
        r == ugen_error_of(e),
        r == TransferError::Cancelled <==> e == 1 || e == 12 || e == 71,
        r == TransferError::Stall <==> e == 4,
        r == TransferError::Disconnected <==> e == 5 || e == 67 || e == 68,
        r == TransferError::InvalidArgument <==> 8 <= e <= 11 || e == 13 || e == 70,
        r == TransferError::Fault <==> 2 <= e <= 3 || 6 <= e <= 7 || e == 14 || 65 <= e <= 66 || e
            == 69 || 72 <= e <= 73 || 80 <= e <= 82,
        r is Unknown ==> r == TransferError::Unknown(e),
{
    match e {
        0x01 => TransferError::Cancelled,
        0x02 => TransferError::Fault,
        0x03 => TransferError::Fault,
        0x04 => TransferError::Stall,
        0x05 => TransferError::Disconnected,
        0x06 => TransferError::Fault,
        0x07 => TransferError::Fault,
        0x08 => TransferError::InvalidArgument,
        0x09 => TransferError::InvalidArgument,
        0x0a => TransferError::InvalidArgument,
        0x0b => TransferError::InvalidArgument,
        0x0c => TransferError::Cancelled,
        0x0d => TransferError::InvalidArgument,
        0x0e => TransferError::Fault,
        0x41 => TransferError::Fault,
        0x42 => TransferError::Fault,
        0x43 => TransferError::Disconnected,
        0x44 => TransferError::Disconnected,
        0x45 => TransferError::Fault,
        0x46 => TransferError::InvalidArgument,
        0x47 => TransferError::Cancelled,
        0x48 => TransferError::Fault,
        0x49 => TransferError::Fault,
        0x50 => TransferError::Fault,
        0x51 => TransferError::Fault,
        0x52 => TransferError::Fault,
        _ => TransferError::Unknown(e),
    }
}

/// The transfer error that an error number stands for.
pub fn errno_to_transfer_error(e: Errno) -> (r: TransferError)
    ensures
        r == errno::common_transfer_error(e),
        r == TransferError::Disconnected <==> e.kind == ErrnoKind::NoDev || e.kind
            == ErrnoKind::Shutdown,
        r == TransferError::Stall <==> e.kind == ErrnoKind::Pipe,
        r == TransferError::Cancelled <==> e.kind == ErrnoKind::NoEnt || e.kind
            == ErrnoKind::ConnReset || e.kind == ErrnoKind::TimedOut,
        r == TransferError::Fault <==> e.kind == ErrnoKind::Proto || e.kind == ErrnoKind::IlSeq
            || e.kind == ErrnoKind::Overflow || e.kind == ErrnoKind::Comm || e.kind
            == ErrnoKind::Time,
        r != TransferError::InvalidArgument,
        r is Unknown ==> r == TransferError::Unknown(e.code),
{
    match e.kind {
        ErrnoKind::NoDev | ErrnoKind::Shutdown => TransferError::Disconnected,
        ErrnoKind::Pipe => TransferError::Stall,
        ErrnoKind::NoEnt | ErrnoKind::ConnReset | ErrnoKind::TimedOut => TransferError::Cancelled,
        ErrnoKind::Proto | ErrnoKind::IlSeq | ErrnoKind::Overflow | ErrnoKind::Comm
        | ErrnoKind::Time => TransferError::Fault,
        _ => TransferError::Unknown(e.code),
    }
}

} // verus!
