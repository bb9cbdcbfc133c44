//! Single transfers through WebUSB.

use vstd::prelude::*;

use crate::transfer::{EndpointType, TransferError};

use super::{webusb_status_to_nusb_transfer_error, TransferStatus};

verus! {

/// A transfer, and what it came to once it is over.
#[derive(Debug)]
pub struct TransferData {
    pub endpoint: u8,
    pub ep_type: EndpointType,
    pub written_bytes: usize,
    pub status: TransferStatus,
    pub data: Vec<u8>,
}

impl TransferData {
    /// A transfer that was not submitted.
    pub fn new(endpoint: u8, ep_type: EndpointType) -> (r: TransferData)
        ensures
            r.endpoint == endpoint,
            r.ep_type == ep_type,
            r.written_bytes == 0,
            r.status == TransferStatus::Done,
            r.data@ == Seq::<u8>::empty(),
    {
        TransferData {
            endpoint,
            ep_type,
            written_bytes: 0,
            status: TransferStatus::Done,
            data: Vec::new(),
        }
    }

    /// The number of the endpoint that data is received from. Only bulk and interrupt endpoints can
    /// be used like this.
    pub fn in_endpoint_number(&self) -> (r: u8)
        requires
            self.ep_type == EndpointType::Bulk || self.ep_type == EndpointType::Interrupt,
        ensures
            r == self.endpoint % 128,
    {
        self.endpoint % 128
    }

    /// The transfer is over.
    pub fn store(&mut self, data: Vec<u8>, status: TransferStatus, written_bytes: usize)
        ensures
            final(self).endpoint == old(self).endpoint,
            final(self).ep_type == old(self).ep_type,
            final(self).data == data,
            final(self).status == status,
            final(self).written_bytes == written_bytes,
    {
        self.data = data;
        self.status = status;
        self.written_bytes = written_bytes;
    }

    /// What a transfer that sends data came to: the data, how many bytes of it were sent, and
    /// whether it went well.
    pub fn take_completed_out(&mut self) -> (r: (Vec<u8>, usize, Result<(), TransferError>))
        ensures
            r.0@ == old(self).data@,
            r.1 == old(self).written_bytes,
            r.2 == super::transfer_result_of(old(self).status),
            *final(self) == *old(self),
    {
        (
            vstd::slice::slice_to_vec(self.data.as_slice()),
            self.written_bytes,
            webusb_status_to_nusb_transfer_error(self.status),
        )
    }

    /// What a transfer that receives data came to: the data, and whether it went well.
    pub fn take_completed_in(&mut self) -> (r: (Vec<u8>, Result<(), TransferError>))
        ensures
            r.0@ == old(self).data@,
            r.1 == super::transfer_result_of(old(self).status),
            *final(self) == *old(self),
    {
        (
            vstd::slice::slice_to_vec(self.data.as_slice()),
            webusb_status_to_nusb_transfer_error(self.status),
        )
    }
}

} // verus!
