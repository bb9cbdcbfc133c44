//! The plain data of transfers.

use vstd::prelude::*;

verus! {

/// Transfer direction
#[derive(Clone, Copy, Debug, PartialEq, Eq, Hash, Structural)]
pub enum Direction {
    /// Host to device
    Out,
    /// Device to host
    In,
}

impl Direction {
    /// The direction that an endpoint address stands for: IN if bit 7 is set.
    pub open spec fn of_address(addr: u8) -> Direction {
        if addr >= 0x80 {
            Direction::In
        } else {
            Direction::Out
        }
    }

    /// Get the direction from an endpoint address.
    pub fn from_address(addr: u8) -> (r: Direction)
        ensures
            r == Direction::of_address(addr),
            r == Direction::In <==> addr >= 128,
    {
        proof {
            assert((addr & 0x80 == 0) == (addr < 0x80)) by (bit_vector);
        }
        match addr & 0x80 {
            0 => Direction::Out,
            _ => Direction::In,
        }
    }
}

/// Endpoint type.
#[derive(Clone, Copy, Debug, PartialEq, Eq, Hash, Structural)]
pub enum EndpointType {
    /// Control endpoint.
    Control,
    /// Isochronous endpoint.
    Isochronous,
    /// Bulk endpoint.
    Bulk,
    /// Interrupt endpoint.
    Interrupt,
}

impl EndpointType {
    /// The type that the low two bits of `bmAttributes` stand for.
    pub open spec fn of_attributes(attributes: u8) -> EndpointType {
        if attributes % 4 == 0 {
            EndpointType::Control
        } else if attributes % 4 == 1 {
            EndpointType::Isochronous
        } else if attributes % 4 == 2 {
            EndpointType::Bulk
        } else {
            EndpointType::Interrupt
        }
    }

    /// Get the type from the `bmAttributes` field of an endpoint descriptor.
    pub fn from_attributes(attributes: u8) -> (r: EndpointType)
        ensures
            r == EndpointType::of_attributes(attributes),
            r == EndpointType::Control <==> attributes % 4 == 0,
            r == EndpointType::Isochronous <==> attributes % 4 == 1,
            r == EndpointType::Bulk <==> attributes % 4 == 2,
            r == EndpointType::Interrupt <==> attributes % 4 == 3,
    {
        proof {
            assert(attributes & 0x03 == attributes % 4) by (bit_vector);
        }
        match attributes & 0x03 {
            0 => EndpointType::Control,
            1 => EndpointType::Isochronous,
            2 => EndpointType::Bulk,
            _ => EndpointType::Interrupt,
        }
    }
}

/// The highest bit of an endpoint's address is its direction, and the two lowest of its attributes are its
/// transfer type.
pub proof fn law_bits_tell_direction_and_type(address: u8, attributes: u8)
    ensures
        Direction::of_address(address) == Direction::In <==> address >= 128,
        Direction::of_address(address) == Direction::Out <==> address < 128,
        EndpointType::of_attributes(attributes) == EndpointType::Control <==> attributes % 4 == 0,
        EndpointType::of_attributes(attributes) == EndpointType::Isochronous <==> attributes % 4 == 1,
        EndpointType::of_attributes(attributes) == EndpointType::Bulk <==> attributes % 4 == 2,
        EndpointType::of_attributes(attributes) == EndpointType::Interrupt <==> attributes % 4 == 3,
{
}

/// Transfer error.
#[derive(Clone, Copy, Debug, PartialEq, Eq, Structural)]
pub enum TransferError {
    /// Transfer was cancelled or timed out.
    Cancelled,
    /// Endpoint in a STALL condition.
    Stall,
    /// Device disconnected.
    Disconnected,
    /// Hardware issue or protocol violation.
    Fault,
    /// The request has an invalid argument or is not supported by this OS.
    InvalidArgument,
    /// Unknown or OS-specific error, with the code that the OS gave.
    Unknown(u32),
}

/// Specification defining the request.
#[derive(Clone, Copy, Debug, PartialEq, Eq, Structural)]
pub enum ControlType {
    /// Request defined by the USB standard.
    Standard,
    /// Request defined by the standard USB class specification.
    Class,
    /// Non-standard request.
    Vendor,
}

/// Entity targeted by the request.
#[derive(Clone, Copy, Debug, PartialEq, Eq, Structural)]
pub enum Recipient {
    /// Request made to device as a whole.
    Device,
    /// Request made to specific interface.
    Interface,
    /// Request made to specific endpoint.
    Endpoint,
    /// Other request.
    Other,
}

/// Length of the setup packet of a control request
pub const SETUP_PACKET_SIZE: usize = 8;

/// The `bmRequestType` field: the direction in bit 7, the type in bits 5 and 6, and the recipient
/// in the low five.
pub open spec fn request_type_of(
    direction: Direction,
    control_type: ControlType,
    recipient: Recipient,
) -> u8 {
    let d: int = match direction {
        Direction::Out => 0,
        Direction::In => 1,
    };
    let t: int = match control_type {
        ControlType::Standard => 0,
        ControlType::Class => 1,
        ControlType::Vendor => 2,
    };
    let r: int = match recipient {
        Recipient::Device => 0,
        Recipient::Interface => 1,
        Recipient::Endpoint => 2,
        Recipient::Other => 3,
    };
    (128 * d + 32 * t + r) as u8
}

/// The `bmRequestType` field of a control request.
pub fn request_type(
    direction: Direction,
    control_type: ControlType,
    recipient: Recipient,
) -> (r: u8)
    ensures
        r == request_type_of(direction, control_type, recipient),
{
    let d: u8 = match direction {
        Direction::Out => 0,
        Direction::In => 128,
    };
    let t: u8 = match control_type {
        ControlType::Standard => 0,
        ControlType::Class => 32,
        ControlType::Vendor => 64,
    };
    let r: u8 = match recipient {
        Recipient::Device => 0,
        Recipient::Interface => 1,
        Recipient::Endpoint => 2,
        Recipient::Other => 3,
    };
    d + t + r
}

/// The eight bytes of a setup packet, with the 16-bit fields in little-endian order.
pub open spec fn setup_bytes(
    request_type: u8,
    request: u8,
    value: u16,
    index: u16,
    length: u16,
) -> Seq<u8> {
    seq![
        request_type,
        request,
        (value % 256) as u8,
        (value / 256) as u8,
        (index % 256) as u8,
        (index / 256) as u8,
        (length % 256) as u8,
        (length / 256) as u8,
    ]
}

fn pack_setup(request_type: u8, request: u8, value: u16, index: u16, length: u16) -> (r: [u8; 8])
    ensures
        r@ == setup_bytes(request_type, request, value, index, length),
{
    let r = [
        request_type,
        request,
        (value % 256) as u8,
        (value / 256) as u8,
        (index % 256) as u8,
        (index / 256) as u8,
        (length % 256) as u8,
        (length / 256) as u8,
    ];
    assert(r@ =~= setup_bytes(request_type, request, value, index, length));
    r
}

/// Every field of a request can be read back out of its setup packet.
pub proof fn law_setup_packet_reads_back(
    request_type: u8,
    request: u8,
    value: u16,
    index: u16,
    length: u16,
)
    ensures
        ({
            let s = setup_bytes(request_type, request, value, index, length);
            &&& s.len() == SETUP_PACKET_SIZE
            &&& s[0] == request_type
            &&& s[1] == request
            &&& crate::descriptors::le16(s[2], s[3]) == value
            &&& crate::descriptors::le16(s[4], s[5]) == index
            &&& crate::descriptors::le16(s[6], s[7]) == length
        }),
{
}

/// The first byte of a setup packet tells the direction by its highest bit, the type of the request by
/// the two below, and the recipient by the others.
pub proof fn law_request_type_tells_its_parts(
    direction: Direction,
    control_type: ControlType,
    recipient: Recipient,
)
    ensures
        ({
            let b = request_type_of(direction, control_type, recipient);
            &&& direction == Direction::In <==> b >= 128
            &&& control_type == ControlType::Standard <==> b % 128 / 32 == 0
            &&& control_type == ControlType::Class <==> b % 128 / 32 == 1
            &&& control_type == ControlType::Vendor <==> b % 128 / 32 == 2
            &&& recipient == Recipient::Device <==> b % 32 == 0
            &&& recipient == Recipient::Interface <==> b % 32 == 1
            &&& recipient == Recipient::Endpoint <==> b % 32 == 2
            &&& recipient == Recipient::Other <==> b % 32 == 3
        }),
{
}

/// The 16-bit fields of a setup packet are there low byte first: the value, then the index, then the
/// length of the data.
pub proof fn law_setup_fields_are_low_byte_first(
    request_type: u8,
    request: u8,
    value: u16,
    index: u16,
    length: u16,
)
    ensures
        ({
            let s = setup_bytes(request_type, request, value, index, length);
            &&& s.len() == 8
            &&& s[0] == request_type
            &&& s[1] == request
            &&& s[2] + 256 * s[3] == value
            &&& s[4] + 256 * s[5] == index
            &&& s[6] + 256 * s[7] == length
        }),
{
}

/// What is known of a completed transfer is its buffer, how much was transferred, and its status.
pub proof fn law_completion_shows_its_parts(c: Completion)
    ensures
        c@.buffer == c.buffer@,
        c@.actual_len == c.actual_len,
        c@.status == c.status,
{
}

/// The fields of a control request that do not depend on its data.
#[derive(Clone, Copy, Debug, PartialEq, Eq, Structural)]
pub struct Control {
    /// Request type, see `bmRequestType`.
    pub control_type: ControlType,
    /// Request recipient, see `bmRequestType`.
    pub recipient: Recipient,
    /// `bRequest` field sent in the setup packet.
    pub request: u8,
    /// `wValue` field sent in the setup packet.
    pub value: u16,
    /// `wIndex` field sent in the setup packet.
    pub index: u16,
}

impl Control {
    /// The `bmRequestType` field of the request.
    pub fn request_type(&self, direction: Direction) -> (r: u8)
        ensures
            r == request_type_of(direction, self.control_type, self.recipient),
    {
        request_type(direction, self.control_type, self.recipient)
    }
}

/// IN control request.
#[derive(Clone, Copy, Debug)]
pub struct ControlIn {
    /// Request type, see `bmRequestType`.
    pub control_type: ControlType,
    /// Request recipient, see `bmRequestType`.
    pub recipient: Recipient,
    /// `bRequest` field sent in the setup packet.
    pub request: u8,
    /// `wValue` field sent in the setup packet.
    pub value: u16,
    /// `wIndex` field sent in the setup packet.
    pub index: u16,
    /// Number of bytes to be read.
    pub length: u16,
}

impl ControlIn {
    /// The setup packet of the request.
    pub fn setup_packet(&self) -> (r: [u8; 8])
        ensures
            r@ == setup_bytes(
                request_type_of(Direction::In, self.control_type, self.recipient),
                self.request,
                self.value,
                self.index,
                self.length,
            ),
    {
        pack_setup(
            request_type(Direction::In, self.control_type, self.recipient),
            self.request,
            self.value,
            self.index,
            self.length,
        )
    }
}

/// OUT control request.
#[derive(Clone, Copy, Debug)]
pub struct ControlOut<'a> {
    /// Request type, see `bmRequestType`.
    pub control_type: ControlType,
    /// Request recipient, see `bmRequestType`.
    pub recipient: Recipient,
    /// `bRequest` field sent in the setup packet.
    pub request: u8,
    /// `wValue` field sent in the setup packet.
    pub value: u16,
    /// `wIndex` field sent in the setup packet.
    pub index: u16,
    /// Data to be sent in the data stage.
    pub data: &'a [u8],
}

impl<'a> ControlOut<'a> {
    /// The setup packet of the request. The data has to be short enough for the `wLength` field.
    pub fn setup_packet(&self) -> (r: [u8; 8])
        requires
            self.data@.len() <= 0xffff,
        ensures
            r@ == setup_bytes(
                request_type_of(Direction::Out, self.control_type, self.recipient),
                self.request,
                self.value,
                self.index,
                self.data@.len() as u16,
            ),
    {
        pack_setup(
            request_type(Direction::Out, self.control_type, self.recipient),
            self.request,
            self.value,
            self.index,
            self.data.len() as u16,
        )
    }
}

/// What is known of a buffer.
#[verifier::ext_equal]
pub struct BufferModel {
    pub data: Seq<u8>,
    pub requested_len: nat,
    pub capacity: nat,
}

impl BufferModel {
    /// A buffer with nothing in it that a transfer may fill.
    pub open spec fn empty(len: nat) -> BufferModel {
        BufferModel { data: seq![], requested_len: len, capacity: len }
    }
}

/// Buffer for bulk and interrupt transfers.
///
/// It has a fixed capacity. The data in it is what an OUT transfer sends; an IN transfer asks for
/// as much as the requested length.
#[derive(Debug)]
pub struct Buffer {
    data: Vec<u8>,
    requested_len: u32,
    capacity: u32,
}

impl View for Buffer {
    type V = BufferModel;

    closed spec fn view(&self) -> BufferModel {
        BufferModel {
            data: self.data@,
            requested_len: self.requested_len as nat,
            capacity: self.capacity as nat,
        }
    }
}

impl Buffer {
    #[verifier::type_invariant]
    spec fn fits(self) -> bool {
        &&& self.data@.len() <= self.capacity
        &&& self.requested_len <= self.capacity
    }

    /// Allocate a buffer. It is empty, and all of it is requested.
    pub fn new(capacity: usize) -> (r: Buffer)
        requires
            capacity <= u32::MAX,
        ensures
            r@ == BufferModel::empty(capacity as nat),
            r@.data.len() == 0,
            r@.requested_len == capacity,
            r@.capacity == capacity,
    {
        let r = Buffer {
            data: Vec::new(),
            requested_len: capacity as u32,
            capacity: capacity as u32,
        };
        assert(r@ =~= BufferModel::empty(capacity as nat));
        r
    }

    /// A buffer that holds these bytes, in an allocation of the given size.
    pub fn from_parts(data: Vec<u8>, requested_len: u32, capacity: u32) -> (r: Buffer)
        requires
            data@.len() <= capacity,
            requested_len <= capacity,
        ensures
            r@.data == data@,
            r@.requested_len == requested_len,
            r@.capacity == capacity,
    {
        Buffer { data, requested_len, capacity }
    }

    /// The number of bytes in the buffer.
    pub fn len(&self) -> (r: usize)
        ensures
            r == self@.data.len(),
            self@.data.len() <= self@.capacity <= u32::MAX,
    {
        proof {
            use_type_invariant(self);
        }
        self.data.len()
    }

    /// Whether there is nothing in the buffer.
    pub fn is_empty(&self) -> (r: bool)
        ensures
            r == (self@.data.len() == 0),
    {
        self.data.len() == 0
    }

    /// The number of bytes that an IN transfer asks for.
    pub fn requested_len(&self) -> (r: usize)
        ensures
            r == self@.requested_len,
            self@.requested_len <= self@.capacity,
    {
        proof {
            use_type_invariant(self);
        }
        self.requested_len as usize
    }

    /// Change the number of bytes that an IN transfer asks for.
    pub fn set_requested_len(&mut self, len: usize)
        requires
            len <= old(self)@.capacity,
        ensures
            final(self)@ == (BufferModel { requested_len: len as nat, ..old(self)@ }),
    {
        proof {
            use_type_invariant(&*self);
        }
        self.requested_len = len as u32;
        assert(self@ =~= (BufferModel { requested_len: len as nat, ..old(self)@ }));
    }

    /// The number of bytes that the buffer can hold.
    pub fn capacity(&self) -> (r: usize)
        ensures
            r == self@.capacity,
            r <= u32::MAX,
    {
        self.capacity as usize
    }

    /// The number of bytes that can still be added.
    pub fn remaining_capacity(&self) -> (r: usize)
        ensures
            r == self@.capacity - self@.data.len(),
    {
        proof {
            use_type_invariant(self);
        }
        self.capacity as usize - self.data.len()
    }

    /// The bytes in the buffer.
    pub fn as_slice(&self) -> (r: &[u8])
        ensures
            r@ == self@.data,
    {
        self.data.as_slice()
    }

    /// Remove all bytes from the buffer.
    pub fn clear(&mut self)
        ensures
            final(self)@ == (BufferModel { data: seq![], ..old(self)@ }),
    {
        proof {
            use_type_invariant(&*self);
        }
        self.data = Vec::new();
        assert(self@ =~= (BufferModel { data: seq![], ..old(self)@ }));
    }

    /// Add bytes to the buffer, as far as it can hold them.
    pub fn extend_from_slice(&mut self, src: &[u8])
        requires
            old(self)@.data.len() + src@.len() <= old(self)@.capacity,
        ensures
            final(self)@ == (BufferModel { data: old(self)@.data + src@, ..old(self)@ }),
    {
        proof {
            use_type_invariant(&*self);
        }
        let mut data: Vec<u8> = Vec::new();
        std::mem::swap(&mut data, &mut self.data);
        data.extend_from_slice(src);
        assert(data@ =~= old(self).data@ + src@);
        self.data = data;
        assert(self@ =~= (BufferModel { data: old(self)@.data + src@, ..old(self)@ }));
    }
}

/// What is known of a completed transfer.
#[verifier::ext_equal]
pub struct CompletionModel {
    pub buffer: BufferModel,
    pub actual_len: nat,
    pub status: Result<(), TransferError>,
}

/// A completed transfer.
#[derive(Debug)]
pub struct Completion {
    /// The buffer of the transfer, with the data that an IN transfer received.
    pub buffer: Buffer,
    /// The number of bytes that were transferred.
    pub actual_len: usize,
    /// Whether the transfer succeeded.
    pub status: Result<(), TransferError>,
}

impl View for Completion {
    type V = CompletionModel;

    open spec fn view(&self) -> CompletionModel {
        CompletionModel {
            buffer: self.buffer@,
            actual_len: self.actual_len as nat,
            status: self.status,
        }
    }
}

/// The result of one packet of an isochronous transfer.
#[derive(Clone, Copy, Debug, PartialEq, Eq, Structural)]
pub struct IsoPacketResult {
    /// Where in the buffer the data of the packet is.
    pub offset: usize,
    /// How much was asked for.
    pub length: usize,
    /// How much was transferred.
    pub actual_length: usize,
    /// The status that the operating system gave.
    pub status: i32,
}

/// A completed isochronous transfer.
#[derive(Debug)]
pub struct IsoCompletion {
    /// The buffer of the transfer; the data of each packet is at its own offset.
    pub buffer: Buffer,
    /// The result of each packet.
    pub packets: Vec<IsoPacketResult>,
    /// The number of packets that failed.
    pub error_count: usize,
    /// Whether the transfer as a whole succeeded.
    pub status: Result<(), TransferError>,
}

} // verus!
