//! Opening devices and claiming interfaces.

use vstd::prelude::*;

use crate::bitset::EndpointBitSet;
use crate::descriptors::{self, DeviceDescriptor};
use crate::endpoint::{Endpoint, EndpointModel, System};
use crate::enumeration;
use crate::error::{Error, ErrorKind};
use crate::transfer::{
    Buffer, BufferModel, Completion, ControlIn, ControlType, Direction, Recipient, TransferError,
};

use super::{js_value_to_transfer_error, webusb_status_to_nusb_transfer_error, TransferStatus};

verus! {

/// The length that is asked for where it is not known how long a descriptor is.
pub const MAX_DESCRIPTOR_LEN: u16 = 4096;

/// The request for a descriptor.
pub fn get_descriptor(desc_type: u8, desc_index: u8, language_id: u16) -> (r: ControlIn)
    ensures
        r.control_type == ControlType::Standard,
        r.recipient == Recipient::Device,
        r.request == 6,
        r.value == 256 * desc_type + desc_index,
        r.index == language_id,
        r.length == MAX_DESCRIPTOR_LEN,
        r.length == 4096,
{
    ControlIn {
        control_type: ControlType::Standard,
        recipient: Recipient::Device,
        request: 0x6,
        value: 256 * desc_type as u16 + desc_index as u16,
        index: language_id,
        length: MAX_DESCRIPTOR_LEN,
    }
}

/// The descriptor that a device answered with, if it did.
pub fn descriptor_data(data: Option<Vec<u8>>) -> (r: Result<Vec<u8>, Error>)
    ensures
        match data {
            Some(data) => r == Ok::<Vec<u8>, Error>(data),
            None => r matches Err(e) && e.is(
                ErrorKind::Other,
                None,
                "descriptor transfer returned no data"@,
            ),
        },
{
    match data {
        Some(data) => Ok(data),
        None => Err(Error::new(ErrorKind::Other, "descriptor transfer returned no data")),
    }
}

/// Whether the bytes that a device has answered are a device descriptor.
pub fn check_device_descriptor(descriptor: &[u8]) -> (r: Result<(), Error>)
    ensures
        r is Ok <==> descriptors::starts_with_device(descriptor@),
        r is Ok <==> descriptor@.len() >= 18 && descriptor@[0] >= 18 && descriptor@[1] == 1,
        r matches Err(e) ==> e.is(ErrorKind::Other, None, "invalid device descriptor"@),
{
    match DeviceDescriptor::new(descriptor) {
        Some(_) => Ok(()),
        None => Err(Error::new(ErrorKind::Other, "invalid device descriptor")),
    }
}

/// The bytes of each of several descriptors.
pub open spec fn descriptor_bytes(v: Seq<Vec<u8>>) -> Seq<Seq<u8>> {
    v.map_values(|d: Vec<u8>| d@)
}

/// Keep the answers that are configurations.
pub fn extract_descriptors(answers: Vec<Vec<u8>>) -> (r: Vec<Vec<u8>>)
    ensures
        descriptor_bytes(r@) == descriptor_bytes(answers@).filter(
            |d: Seq<u8>| descriptors::starts_with_config(d),
        ),
        r@.map_values(|d: Vec<u8>| d@) == answers@.map_values(|d: Vec<u8>| d@).filter(
            |d: Seq<u8>|
                d.len() >= 9 && d[0] >= 9 && d[1] == 2 && d[0] <= d[2] + 256 * d[3] <= d.len(),
        ),
{
    proof {
        assert((|d: Seq<u8>|
            d.len() >= 9 && d[0] >= 9 && d[1] == 2 && d[0] <= d[2] + 256 * d[3] <= d.len()) =~= (
        |d: Seq<u8>| descriptors::starts_with_config(d)));
    }
    let ghost all = descriptor_bytes(answers@);
    let ghost valid = |d: Seq<u8>| descriptors::starts_with_config(d);
    let mut out: Vec<Vec<u8>> = Vec::new();
    let mut i: usize = 0;
    proof {
        reveal(Seq::filter);
        assert(all.take(0).filter(valid) =~= seq![]);
        assert(descriptor_bytes(out@) =~= seq![]);
    }
    while i < answers.len()
        invariant
            i <= answers@.len(),
            all == descriptor_bytes(answers@),
            valid == (|d: Seq<u8>| descriptors::starts_with_config(d)),
            descriptor_bytes(out@) == all.take(i as int).filter(valid),
        decreases answers@.len() - i,
    {
        let ghost before = descriptor_bytes(out@);
        proof {
            reveal(Seq::filter);
            assert(all.take(i + 1).drop_last() =~= all.take(i as int));
            assert(all.take(i + 1).last() == answers@[i as int]@);
        }
        if descriptors::validate_config_descriptor(answers[i].as_slice()).is_some() {
            let d = vstd::slice::slice_to_vec(answers[i].as_slice());
            out.push(d);
            assert(descriptor_bytes(out@) =~= before.push(all[i as int]));
        }
        i = i + 1;
    }
    assert(all.take(i as int) =~= all);
    out
}

/// The active configuration of a device, or 0 if it is not configured.
pub fn active_configuration_value(configuration: Option<u8>) -> (r: u8)
    ensures
        r == match configuration {
            Some(value) => value,
            None => 0,
        },
{
    match configuration {
        Some(value) => value,
        None => 0,
    }
}

/// An interface of the active configuration: its number, and whether it is claimed.
#[derive(Debug, Clone, Copy, PartialEq, Eq, Structural)]
pub struct ClaimState {
    pub number: u8,
    pub claimed: bool,
}

/// The first interface with a number.
pub open spec fn first_with(interfaces: Seq<ClaimState>, number: u8) -> Option<ClaimState>
    decreases interfaces.len(),
{
    if interfaces.len() == 0 {
        None
    } else if interfaces[0].number == number {
        Some(interfaces[0])
    } else {
        first_with(interfaces.skip(1), number)
    }
}

/// An interface is found by its number, the first one counting, and there is none if none has it.
pub proof fn law_interface_is_found_by_number(interfaces: Seq<ClaimState>, number: u8, i: int)
    requires
        0 <= i <= interfaces.len(),
        i < interfaces.len() ==> interfaces[i].number == number,
        forall|j: int| 0 <= j < i ==> (#[trigger] interfaces[j]).number != number,
    ensures
        first_with(interfaces, number) == if i < interfaces.len() {
            Some(interfaces[i])
        } else {
            None
        },
    decreases interfaces.len(),
{
    if i > 0 {
        let rest = interfaces.skip(1);
        assert(interfaces[0].number != number);
        assert forall|j: int| 0 <= j < i - 1 implies (#[trigger] rest[j]).number != number by {
            assert(rest[j] == interfaces[j + 1]);
        }
        law_interface_is_found_by_number(rest, number, i - 1);
    }
}

/// Whether an interface can be claimed, by the interfaces of the active configuration, if there is
/// one.
pub fn check_claim(interfaces: Option<&[ClaimState]>, interface_number: u8) -> (r: Result<
    (),
    Error,
>)
    ensures
        match interfaces {
            None => r matches Err(e) && e.is(
                ErrorKind::NotFound,
                None,
                "no active configuration"@,
            ),
            Some(interfaces) => match first_with(interfaces@, interface_number) {
                None => r matches Err(e) && e.is(ErrorKind::NotFound, None, "interface not found"@),
                Some(i) => if i.claimed {
                    r matches Err(e) && e.is(ErrorKind::Busy, None, "interface already claimed"@)
                } else {
                    r is Ok
                },
            },
        },
{
    let all = match interfaces {
        Some(all) => all,
        None => return Err(Error::new(ErrorKind::NotFound, "no active configuration")),
    };
    let mut i: usize = 0;
    assert(all@.skip(0) =~= all@);
    while i < all.len()
        invariant
            i <= all@.len(),
            interfaces == Some(all),
            first_with(all@, interface_number) == first_with(
                all@.skip(i as int),
                interface_number,
            ),
        decreases all@.len() - i,
    {
        assert(all@.skip(i as int).skip(1) =~= all@.skip(i + 1));
        let interface = all[i];
        if interface.number == interface_number {
            if interface.claimed {
                return Err(Error::new(ErrorKind::Busy, "interface already claimed"));
            }
            return Ok(());
        }
        i = i + 1;
    }
    Err(Error::new(ErrorKind::NotFound, "interface not found"))
}

/// A claimed interface: which of its endpoints are in use, and its alternate setting.
#[derive(Debug)]
pub struct WebusbInterface {
    pub interface_number: u8,
    pub endpoints_used: EndpointBitSet,
    pub alt_setting: u8,
}

impl WebusbInterface {
    /// An interface that was claimed.
    pub fn new(interface_number: u8) -> (r: WebusbInterface)
        ensures
            r.interface_number == interface_number,
            r.endpoints_used@ == Set::<u8>::empty(),
            r.alt_setting == 0,
    {
        WebusbInterface {
            interface_number,
            endpoints_used: EndpointBitSet::default(),
            alt_setting: 0,
        }
    }

    /// Whether the alternate setting may be changed: not while endpoints are in use.
    pub fn check_alt_setting(&self) -> (r: Result<(), Error>)
        ensures
            r is Ok <==> self.endpoints_used@ == Set::<u8>::empty(),
            r matches Err(e) ==> e.is(
                ErrorKind::Busy,
                None,
                "must drop endpoints before changing alt setting"@,
            ),
    {
        if !self.endpoints_used.is_empty() {
            return Err(
                Error::new(ErrorKind::Busy, "must drop endpoints before changing alt setting"),
            );
        }
        Ok(())
    }

    /// What changing the alternate setting came to.
    pub fn set_alt_setting(&mut self, alternate_setting: u8, result: Result<(), Error>) -> (r:
        Result<(), Error>)
        ensures
            r == result,
            final(self).interface_number == old(self).interface_number,
            final(self).endpoints_used == old(self).endpoints_used,
            final(self).alt_setting == if result is Ok {
                alternate_setting
            } else {
                old(self).alt_setting
            },
    {
        match result {
            Ok(done) => {
                self.alt_setting = alternate_setting;
                Ok(done)
            },
            Err(e) => Err(e),
        }
    }

    /// Get the alternate setting.
    pub fn get_alt_setting(&self) -> (r: u8)
        ensures
            r == self.alt_setting,
    {
        self.alt_setting
    }

    /// Use an endpoint of the interface. It can be used only once at a time.
    pub fn endpoint(&mut self, descriptor: descriptors::Endpoint<'_>) -> (r: Result<Endpoint, Error>)
        ensures
            final(self).interface_number == old(self).interface_number,
            final(self).alt_setting == old(self).alt_setting,
            ({
                let address = crate::bitset::canonical(descriptor@[2]);
                if old(self).endpoints_used@.contains(address) {
                    r matches Err(e) && e.is(ErrorKind::Busy, None, "endpoint already in use"@)
                        && final(self).endpoints_used == old(self).endpoints_used
                } else {
                    r matches Ok(endpoint) && endpoint@ == (EndpointModel {
                        system: System::WebUsb,
                        address: descriptor@[2],
                        max_packet_size: (descriptors::le16(descriptor@[4], descriptor@[5])
                            % 2048) as nat,
                        queue: seq![],
                    }) && final(self).endpoints_used@ == old(self).endpoints_used@.insert(address)
                }
            }),
    {
        let address: u8 = descriptor.address();
        let max_packet_size: usize = descriptor.max_packet_size();
        if self.endpoints_used.is_set(address) {
            return Err(Error::new(ErrorKind::Busy, "endpoint already in use"));
        }
        self.endpoints_used.set(address);
        Ok(Endpoint::new(System::WebUsb, address, max_packet_size))
    }

    /// An endpoint is no longer in use.
    pub fn release_endpoint(&mut self, address: u8)
        ensures
            final(self).endpoints_used@ == old(self).endpoints_used@.remove(
                crate::bitset::canonical(address),
            ),
            final(self).interface_number == old(self).interface_number,
            final(self).alt_setting == old(self).alt_setting,
    {
        self.endpoints_used.clear(address);
    }
}

/// What a transfer gave, or the name of the exception that it failed with.
#[derive(Debug)]
pub enum TransferReply {
    Out { bytes_written: u32, status: TransferStatus },
    In { data: Option<Vec<u8>>, status: TransferStatus },
    Exception(Option<String>),
}

/// Whether this can be the reply to a transfer in a direction with a buffer: no more is received
/// than the buffer can hold.
pub open spec fn is_reply(reply: TransferReply, direction: Direction, buffer: BufferModel) -> bool {
    match reply {
        TransferReply::Out { .. } => direction == Direction::Out,
        TransferReply::In { data, .. } => direction == Direction::In && (data matches Some(d)
            ==> d@.len() <= buffer.capacity),
        TransferReply::Exception(_) => true,
    }
}

/// A transfer that sends is answered by how much was sent, and one that receives by no more than there
/// is room for; either may fail with an exception.
pub proof fn law_reply_has_its_direction(
    reply: TransferReply,
    direction: Direction,
    buffer: BufferModel,
)
    ensures
        reply is Exception ==> is_reply(reply, direction, buffer),
        reply is Out ==> (is_reply(reply, direction, buffer) <==> direction == Direction::Out),
        reply matches TransferReply::In { data, status } ==> (is_reply(reply, direction, buffer)
            <==> direction == Direction::In && (data is None || data->0@.len() <= buffer.capacity)),
{
}

/// The result of a transfer.
pub fn complete_transfer(buffer: Buffer, direction: Direction, reply: TransferReply) -> (r:
    Completion)
    requires
        is_reply(reply, direction, buffer@),
    ensures
        match reply {
            TransferReply::Exception(name) => r.status == Err::<(), TransferError>(
                super::exception_error(enumeration::opt_text(name)),
            ) && r.actual_len == 0 && r.buffer@ == buffer@,
            TransferReply::Out { bytes_written, status } => r.status == super::transfer_result_of(
                status,
            ) && r.actual_len == bytes_written && r.buffer@ == buffer@,
            TransferReply::In { data, status } => r.status == super::transfer_result_of(status)
                && match data {
                Some(d) => r.actual_len == d@.len() && r.buffer@ == (BufferModel {
                    data: d@,
                    ..buffer@
                }),
                None => r.actual_len == 0 && r.buffer@ == buffer@,
            },
        },
{
    match reply {
        TransferReply::Exception(name) => Completion {
            status: Err(js_value_to_transfer_error(crate::text::as_deref(&name))),
            actual_len: 0,
            buffer,
        },
        TransferReply::Out { bytes_written, status } => Completion {
            status: webusb_status_to_nusb_transfer_error(status),
            actual_len: bytes_written as usize,
            buffer,
        },
        TransferReply::In { data, status } => {
            let status = webusb_status_to_nusb_transfer_error(status);
            match data {
                Some(data) => {
                    let actual_len: usize = data.len();
                    let requested_len: usize = buffer.requested_len();
                    let capacity: usize = buffer.capacity();
                    let filled = Buffer::from_parts(data, requested_len as u32, capacity as u32);
                    assert(filled@ =~= (BufferModel { data: data@, ..buffer@ }));
                    Completion { status, actual_len, buffer: filled }
                },
                None => Completion { status, actual_len: 0, buffer },
            }
        },
    }
}

/// The data that a control request received.
pub fn control_in_result(reply: TransferReply) -> (r: Result<Vec<u8>, TransferError>)
    requires
        reply !is Out,
    ensures
        match reply {
            TransferReply::In { data, status } => match super::transfer_result_of(status) {
                Err(e) => r == Err::<Vec<u8>, TransferError>(e),
                Ok(_) => match data {
                    Some(data) => r == Ok::<Vec<u8>, TransferError>(data),
                    None => r == Err::<Vec<u8>, TransferError>(TransferError::Unknown(0)),
                },
            },
            TransferReply::Exception(name) => r == Err::<Vec<u8>, TransferError>(
                super::exception_error(enumeration::opt_text(name)),
            ),
            TransferReply::Out { .. } => true,
        },
{
    match reply {
        TransferReply::In { data, status } => match webusb_status_to_nusb_transfer_error(status) {
            Ok(_) => match data {
                Some(data) => Ok(data),
                None => Err(TransferError::Unknown(0)),
            },
            Err(e) => Err(e),
        },
        TransferReply::Exception(name) => Err(
            js_value_to_transfer_error(crate::text::as_deref(&name)),
        ),
        TransferReply::Out { .. } => vstd::pervasive::unreached(),
    }
}

/// What a control request that sends data came to.
pub fn control_out_result(reply: TransferReply) -> (r: Result<(), TransferError>)
    requires
        reply !is In,
    ensures
        match reply {
            TransferReply::Out { status, .. } => r == super::transfer_result_of(status),
            TransferReply::Exception(name) => r == Err::<(), TransferError>(
                super::exception_error(enumeration::opt_text(name)),
            ),
            TransferReply::In { .. } => true,
        },
{
    match reply {
        TransferReply::Out { status, .. } => webusb_status_to_nusb_transfer_error(status),
        TransferReply::Exception(name) => Err(
            js_value_to_transfer_error(crate::text::as_deref(&name)),
        ),
        TransferReply::In { .. } => vstd::pervasive::unreached(),
    }
}

} // verus!
