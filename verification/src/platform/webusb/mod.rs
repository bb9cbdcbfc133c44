//! Web browsers, through WebUSB.

use vstd::prelude::*;

use crate::error::{Error, ErrorKind};
use crate::text;
use crate::transfer::TransferError;

pub mod device;
pub mod enumeration;
pub mod transfer;

verus! {

/// The number of a device
#[derive(Debug, Copy, Clone, PartialEq, Eq, Hash, Structural)]
pub struct DeviceId {
    pub id: usize,
}

/// Gives numbers to devices, which they keep.
#[derive(Debug)]
pub struct DeviceIds {
    last: usize,
}

impl DeviceIds {
    /// The last number that was given.
    pub closed spec fn last(&self) -> usize {
        self.last
    }

    /// No numbers were given.
    pub fn new() -> (r: DeviceIds)
        ensures
            r.last() == 0,
    {
        DeviceIds { last: 0 }
    }

    /// The number of a device: the one that it has, or else one that no device was given before,
    /// which is to be stored with it.
    pub fn from_device(&mut self, known: Option<usize>) -> (r: DeviceId)
        requires
            known is None ==> old(self).last() < usize::MAX,
        ensures
            match known {
                Some(id) => r.id == id && final(self).last() == old(self).last(),
                None => r.id == old(self).last() + 1 && final(self).last() == r.id,
            },
    {
        match known {
            Some(id) => DeviceId { id },
            None => {
                self.last = self.last + 1;
                DeviceId { id: self.last }
            },
        }
    }
}

/// The status of a transfer.
#[derive(Debug, Copy, Clone, PartialEq, Eq, Structural)]
pub enum TransferStatus {
    Done,
    Stall,
    Babble,
}

/// What a transfer came to, by its status.
pub open spec fn transfer_result_of(status: TransferStatus) -> Result<(), TransferError> {
    match status {
        TransferStatus::Done => Ok(()),
        TransferStatus::Stall => Err(TransferError::Stall),
        TransferStatus::Babble => Err(TransferError::Fault),
    }
}

/// A transfer went well exactly if it is done; babble is a fault of the device.
pub proof fn law_statuses_have_transfer_errors(status: TransferStatus)
    ensures
        transfer_result_of(status) is Ok <==> status == TransferStatus::Done,
        transfer_result_of(status) == Err::<(), TransferError>(TransferError::Stall) <==> status
            == TransferStatus::Stall,
        transfer_result_of(status) == Err::<(), TransferError>(TransferError::Fault) <==> status
            == TransferStatus::Babble,
{
}

/// What a transfer came to, by its status.
pub fn webusb_status_to_nusb_transfer_error(status: TransferStatus) -> (r: Result<
    (),
    TransferError,
>)
    ensures
        r == transfer_result_of(status),
        r is Ok <==> status == TransferStatus::Done,
        r == Err::<(), TransferError>(TransferError::Stall) <==> status == TransferStatus::Stall,
        r == Err::<(), TransferError>(TransferError::Fault) <==> status == TransferStatus::Babble,
{
    match status {
        TransferStatus::Done => Ok(()),
        TransferStatus::Stall => Err(TransferError::Stall),
        TransferStatus::Babble => Err(TransferError::Fault),
    }
}

/// Whether WebUSB can be used, by whether there is a global scope that could have it, and whether
/// it does.
pub fn usb(has_scope: bool, is_defined: bool) -> (r: Result<(), Error>)
    ensures
        r is Ok <==> has_scope && is_defined,
        r matches Err(e) ==> e.is(
            ErrorKind::Unsupported,
            None,
            if has_scope {
                "WebUSB is not available"@
            } else {
                "Could not obtain Window or WorkerGlobalScope"@
            },
        ),
{
    if !has_scope {
        return Err(
            Error::new(ErrorKind::Unsupported, "Could not obtain Window or WorkerGlobalScope"),
        );
    }
    if !is_defined {
        return Err(Error::new(ErrorKind::Unsupported, "WebUSB is not available"));
    }
    Ok(())
}

/// The error for an exception.
pub fn js_value_to_error() -> (r: Error)
    ensures
        r.is(ErrorKind::Other, None, "WebUSB error (see logs)"@),
{
    Error::new(ErrorKind::Other, "WebUSB error (see logs)")
}

/// The transfer error for an exception with a name.
pub open spec fn exception_error(name: Option<Seq<char>>) -> TransferError {
    if name == Some("NetworkError"@) {
        TransferError::Disconnected
    } else {
        TransferError::Fault
    }
}

/// The exception of the name `NetworkError` says that the device is gone, and any other that the transfer
/// went wrong.
pub proof fn law_network_error_is_disconnection(name: Seq<char>)
    ensures
        exception_error(None) == TransferError::Fault,
        exception_error(Some(name)) == TransferError::Disconnected <==> name == "NetworkError"@,
        exception_error(Some(name)) == TransferError::Fault <==> name != "NetworkError"@,
{
}

/// The transfer error for an exception, by its name.
pub fn js_value_to_transfer_error(name: Option<&str>) -> (r: TransferError)
    ensures
        r == exception_error(crate::enumeration::text_of(name)),
        r == TransferError::Disconnected <==> name is Some && name->0@ == "NetworkError"@,
        r == TransferError::Fault <==> name is None || name->0@ != "NetworkError"@,
{
    if let Some(name) = name {
        if text::same_text(name, "NetworkError") {
            return TransferError::Disconnected;
        }
    }
    TransferError::Fault
}

} // verus!
