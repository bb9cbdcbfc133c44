//! Linux, through usbfs and sysfs, and Android.

use vstd::prelude::*;

use crate::error::OsErrorFormat;
use crate::platform::errno::{Errno, ErrnoKind};
use crate::transfer::TransferError;

pub mod android;
pub mod device;
pub mod enumeration;
pub mod events;
pub mod hotplug;
pub mod timeouts;
pub mod transfer;

verus! {

/// Bus number and address of a device
#[derive(Copy, Clone, Debug, Hash, PartialEq, Eq, Structural)]
pub struct DeviceId {
    pub bus: u8,
    pub addr: u8,
}

/// The transfer error that an error number stands for.
pub open spec fn transfer_error_of(e: Errno) -> TransferError {
    if e.kind == ErrnoKind::Inval {
        TransferError::InvalidArgument
    } else {
        crate::platform::errno::common_transfer_error(e)
    }
}

/// The transfer error that an error number stands for.
pub fn errno_to_transfer_error(e: Errno) -> (r: TransferError)
    ensures
        r == transfer_error_of(e),
{
    match e.kind {
        ErrnoKind::NoDev | ErrnoKind::Shutdown => TransferError::Disconnected,
        ErrnoKind::Pipe => TransferError::Stall,
        ErrnoKind::NoEnt | ErrnoKind::ConnReset | ErrnoKind::TimedOut => TransferError::Cancelled,
        ErrnoKind::Proto | ErrnoKind::IlSeq | ErrnoKind::Overflow | ErrnoKind::Comm
        | ErrnoKind::Time => TransferError::Fault,
        ErrnoKind::Inval => TransferError::InvalidArgument,
        _ => TransferError::Unknown(e.code),
    }
}

/// Each condition that a transfer can fail for comes out as the one error that it stands for, and any
/// other with its number.
pub proof fn law_conditions_have_transfer_errors(e: Errno)
    ensures
        ({
            let r = transfer_error_of(e);
            &&& r == TransferError::Disconnected <==> e.kind == ErrnoKind::NoDev || e.kind
                == ErrnoKind::Shutdown
            &&& r == TransferError::Stall <==> e.kind == ErrnoKind::Pipe
            &&& r == TransferError::Cancelled <==> e.kind == ErrnoKind::NoEnt || e.kind
                == ErrnoKind::ConnReset || e.kind == ErrnoKind::TimedOut
            &&& r == TransferError::Fault <==> e.kind == ErrnoKind::Proto || e.kind
                == ErrnoKind::IlSeq || e.kind == ErrnoKind::Overflow || e.kind == ErrnoKind::Comm
                || e.kind == ErrnoKind::Time
            &&& r == TransferError::InvalidArgument <==> e.kind == ErrnoKind::Inval
            &&& r is Unknown ==> r == TransferError::Unknown(e.code)
        }),
{
}

/// Write an error code.
pub fn format_os_error_code(code: u32) -> (r: String)
    ensures
        r@ == "errno "@ + crate::text::decimal(code as nat),
{
    crate::error::format_os_error_code(OsErrorFormat::Errno, code)
}

} // verus!
