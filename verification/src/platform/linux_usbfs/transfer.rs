//! Transfers as usbfs has them.

use vstd::prelude::*;

use crate::endpoint::{self, System};
use crate::platform::errno::{self, Errno, ErrnoNumbers};
use crate::transfer::{
    Buffer, BufferModel, Completion, CompletionModel, ControlIn, ControlOut, Direction,
    EndpointType, IsoCompletion, IsoPacketResult, TransferError, SETUP_PACKET_SIZE,
};

use super::errno_to_transfer_error;

verus! {

pub const USBDEVFS_URB_TYPE_ISO: u8 = 0;

pub const USBDEVFS_URB_TYPE_INTERRUPT: u8 = 1;

pub const USBDEVFS_URB_TYPE_CONTROL: u8 = 2;

pub const USBDEVFS_URB_TYPE_BULK: u8 = 3;

pub const USBDEVFS_URB_ISO_ASAP: u32 = 2;

/// The request block of a transfer, without the pointers in it.
#[derive(Clone, Copy, Debug, PartialEq, Eq, Structural)]
pub struct Urb {
    pub ep_type: u8,
    pub endpoint: u8,
    pub status: i32,
    pub flags: u32,
    pub buffer_length: i32,
    pub actual_length: i32,
    pub number_of_packets_or_stream_id: u32,
    pub error_count: i32,
}

/// A number that was stored as a signed one of the same size is the same when read back.
proof fn lemma_signed_and_back(x: u32)
    by (bit_vector)
    ensures
        (x as i32) as u32 == x,
{
}

/// The type of request block for a type of endpoint.
pub open spec fn urb_type_of(ep_type: EndpointType) -> u8 {
    match ep_type {
        EndpointType::Control => USBDEVFS_URB_TYPE_CONTROL,
        EndpointType::Interrupt => USBDEVFS_URB_TYPE_INTERRUPT,
        EndpointType::Bulk => USBDEVFS_URB_TYPE_BULK,
        EndpointType::Isochronous => USBDEVFS_URB_TYPE_ISO,
    }
}

/// A request block for an endpoint with nothing to transfer.
pub open spec fn idle_urb(endpoint: u8, ep_type: EndpointType) -> Urb {
    Urb {
        ep_type: urb_type_of(ep_type),
        endpoint,
        status: 0,
        flags: 0,
        buffer_length: 0,
        actual_length: 0,
        number_of_packets_or_stream_id: 0,
        error_count: 0,
    }
}

/// How much a transfer on an endpoint asks for: what is in the buffer to send, or what was
/// requested to receive.
pub open spec fn transfer_len(endpoint: u8, buffer: BufferModel) -> nat {
    match Direction::of_address(endpoint) {
        Direction::Out => buffer.data.len(),
        Direction::In => buffer.requested_len,
    }
}

/// What is known of a transfer.
#[verifier::ext_equal]
pub struct TransferModel {
    pub urb: Urb,
    pub memory: Seq<u8>,
    pub capacity: nat,
    pub deadline: Option<u64>,
}

impl TransferModel {
    /// A transfer with nothing to transfer.
    pub open spec fn idle(endpoint: u8, ep_type: EndpointType) -> TransferModel {
        TransferModel {
            urb: idle_urb(endpoint, ep_type),
            memory: seq![],
            capacity: 0,
            deadline: None,
        }
    }

    /// The transfer with a buffer.
    pub open spec fn with_buffer(self, buf: BufferModel) -> TransferModel {
        TransferModel {
            urb: Urb {
                actual_length: 0,
                buffer_length: (transfer_len(self.urb.endpoint, buf) as u32) as i32,
                ..self.urb
            },
            memory: buf.data,
            capacity: buf.capacity,
            ..self
        }
    }

    /// How many bytes in memory count once the transfer is done.
    pub open spec fn result_len(self) -> nat {
        match Direction::of_address(self.urb.endpoint) {
            Direction::Out => (self.urb.buffer_length as u32) as nat,
            Direction::In => (self.urb.actual_length as u32) as nat,
        }
    }

    /// Whether what came back fits what was asked for.
    pub open spec fn is_complete(self) -> bool {
        &&& self.urb.actual_length >= 0
        &&& -4095 <= self.urb.status <= 4095
        &&& self.result_len() <= self.memory.len() <= self.capacity <= u32::MAX
        &&& (self.urb.buffer_length as u32) as nat <= self.capacity
    }
}

/// A transfer that is refused because of its arguments completes as one does that could not be
/// submitted for an invalid argument.
pub proof fn law_refused_as_not_submitted(
    address: u8,
    ep_type: EndpointType,
    buffer: BufferModel,
    n: ErrnoNumbers,
)
    requires
        n.are_distinct(),
        0 < n.inval <= 4095,
        buffer.data.len() <= u32::MAX,
        buffer.requested_len <= u32::MAX,
    ensures
        ({
            let given = TransferModel::idle(address, ep_type).with_buffer(buffer);
            let t = TransferModel { urb: Urb { status: n.inval, ..given.urb }, ..given };
            let c = endpoint::failed(
                System::Usbfs,
                address,
                buffer,
                endpoint::refusal(System::Usbfs, TransferError::InvalidArgument),
            );
            &&& c.status == status_of(t.urb.status, n)
            &&& c.actual_len == t.urb.actual_length
            &&& c.buffer == (BufferModel {
                data: t.memory.take(t.result_len() as int),
                requested_len: (t.urb.buffer_length as u32) as nat,
                capacity: t.capacity,
            })
        }),
{
    law_failures_are_told_apart(n.inval, n);
    lemma_signed_and_back(transfer_len(address, buffer) as u32);
    lemma_signed_and_back(0);
    match Direction::of_address(address) {
        Direction::Out => {
            assert(buffer.data.take(buffer.data.len() as int) =~= buffer.data);
        },
        Direction::In => {
            assert(buffer.data.take(0) =~= seq![]);
        },
    }
}

/// The state of a transfer: its request block, and the memory that it fills or sends.
#[derive(Debug)]
pub struct TransferData {
    urb: Urb,
    memory: Vec<u8>,
    capacity: u32,
    deadline: Option<u64>,
}

impl View for TransferData {
    type V = TransferModel;

    closed spec fn view(&self) -> TransferModel {
        TransferModel {
            urb: self.urb,
            memory: self.memory@,
            capacity: self.capacity as nat,
            deadline: self.deadline,
        }
    }
}

/// What a status says of a transfer: that it went well, if it is 0, or else how it failed, by an
/// error number, which is sometimes positive and sometimes negative.
pub open spec fn status_of(status: i32, n: ErrnoNumbers) -> Result<(), TransferError> {
    if status == 0 {
        Ok(())
    } else if status < 0 {
        Err(super::transfer_error_of(errno::errno_of((-status) as i32, n)))
    } else {
        Err(super::transfer_error_of(errno::errno_of(status, n)))
    }
}

/// From how a transfer failed it can be told what happened: whether the endpoint has stalled, the
/// device is gone, or the transfer was cancelled.
pub proof fn law_failures_are_told_apart(status: i32, n: ErrnoNumbers)
    requires
        n.are_distinct(),
        -4095 <= status <= 4095,
        status != 0,
    ensures
        ({
            let code = if status < 0 {
                -status
            } else {
                status as int
            };
            let r = status_of(status, n);
            &&& r == Err::<(), TransferError>(TransferError::Stall) <==> code == n.pipe
            &&& r == Err::<(), TransferError>(TransferError::Disconnected) <==> code == n.no_dev
                || code == n.shutdown
            &&& r == Err::<(), TransferError>(TransferError::Cancelled) <==> code == n.no_ent || code
                == n.conn_reset || code == n.timed_out
            &&& r == Err::<(), TransferError>(TransferError::InvalidArgument) <==> code == n.inval
        }),
{
    let code = if status < 0 {
        (-status) as i32
    } else {
        status
    };
    errno::law_numbers_stand_for_conditions(n, code);
}

/// A status says that all went well exactly if it is 0, and says the same whether the error number in it
/// is positive or negative. A number that stands for no particular error comes out as it is.
pub proof fn law_status_has_error_number(code: i32, n: ErrnoNumbers)
    requires
        n.are_distinct(),
        0 < code <= 4095,
    ensures
        status_of(0, n) is Ok,
        status_of(code, n) is Err,
        status_of((-code) as i32, n) == status_of(code, n),
        status_of(code, n) == Err::<(), TransferError>(TransferError::Fault) <==> code == n.proto
            || code == n.il_seq || code == n.overflow || code == n.comm || code == n.time,
        code != n.pipe && code != n.no_dev && code != n.shutdown && code != n.no_ent && code
            != n.conn_reset && code != n.timed_out && code != n.inval && code != n.proto && code
            != n.il_seq && code != n.overflow && code != n.comm && code != n.time ==> status_of(
            code,
            n,
        ) == Err::<(), TransferError>(TransferError::Unknown(code as u32)),
{
    errno::law_numbers_stand_for_conditions(n, code);
}

fn read_status(status: i32, n: &ErrnoNumbers) -> (r: Result<(), TransferError>)
    requires
        -4095 <= status <= 4095,
    ensures
        r == status_of(status, *n),
{
    if status == 0 {
        return Ok(());
    }
    let code: i32 = if status < 0 {
        -status
    } else {
        status
    };
    let errno = Errno::from_raw_os_error(code, n);
    Err(errno_to_transfer_error(errno))
}

impl TransferData {
    /// A transfer for an endpoint with nothing to transfer.
    pub fn new(endpoint: u8, ep_type: EndpointType) -> (r: TransferData)
        ensures
            r@ == TransferModel::idle(endpoint, ep_type),
    {
        let ep_type: u8 = match ep_type {
            EndpointType::Control => USBDEVFS_URB_TYPE_CONTROL,
            EndpointType::Interrupt => USBDEVFS_URB_TYPE_INTERRUPT,
            EndpointType::Bulk => USBDEVFS_URB_TYPE_BULK,
            EndpointType::Isochronous => USBDEVFS_URB_TYPE_ISO,
        };
        let r = TransferData {
            urb: Urb {
                ep_type,
                endpoint,
                status: 0,
                flags: 0,
                buffer_length: 0,
                actual_length: 0,
                number_of_packets_or_stream_id: 0,
                error_count: 0,
            },
            memory: Vec::new(),
            capacity: 0,
            deadline: None,
        };
        assert(r@.memory =~= seq![]);
        r
    }

    /// A transfer that sends a control request with its data.
    pub fn new_control_out(data: ControlOut<'_>) -> (r: TransferData)
        requires
            data.data@.len() <= 0xffff,
        ensures
            ({
                let packet = crate::transfer::setup_bytes(
                    crate::transfer::request_type_of(
                        Direction::Out,
                        data.control_type,
                        data.recipient,
                    ),
                    data.request,
                    data.value,
                    data.index,
                    data.data@.len() as u16,
                );
                let len = SETUP_PACKET_SIZE as nat + data.data@.len();
                &&& r@.memory == packet + data.data@
                &&& r@.capacity == 8 + data.data@.len()
                &&& r@.urb.endpoint == 0 && r@.urb.ep_type == 2
                &&& r@ == TransferModel::idle(0x00, EndpointType::Control).with_buffer(
                    BufferModel { data: packet + data.data@, requested_len: len, capacity: len },
                )
            }),
    {
        let mut t = TransferData::new(0x00, EndpointType::Control);
        let mut buffer = Buffer::new(SETUP_PACKET_SIZE + data.data.len());
        let packet = data.setup_packet();
        buffer.extend_from_slice(packet.as_slice());
        buffer.extend_from_slice(data.data);
        assert(seq![] + packet@ =~= packet@);
        t.set_buffer(buffer);
        t
    }

    /// A transfer that sends a control request and receives its data.
    pub fn new_control_in(data: ControlIn) -> (r: TransferData)
        ensures
            ({
                let packet = crate::transfer::setup_bytes(
                    crate::transfer::request_type_of(
                        Direction::In,
                        data.control_type,
                        data.recipient,
                    ),
                    data.request,
                    data.value,
                    data.index,
                    data.length,
                );
                let len = SETUP_PACKET_SIZE as nat + data.length as nat;
                &&& r@.memory == packet
                &&& r@.capacity == 8 + data.length
                &&& r@.urb.endpoint == 128 && r@.urb.ep_type == 2
                &&& r@ == TransferModel::idle(0x80, EndpointType::Control).with_buffer(
                    BufferModel { data: packet, requested_len: len, capacity: len },
                )
            }),
    {
        let mut t = TransferData::new(0x80, EndpointType::Control);
        let mut buffer = Buffer::new(SETUP_PACKET_SIZE + data.length as usize);
        let packet = data.setup_packet();
        buffer.extend_from_slice(packet.as_slice());
        assert(seq![] + packet@ =~= packet@);
        t.set_buffer(buffer);
        t
    }

    /// Give the transfer a buffer.
    pub fn set_buffer(&mut self, buf: Buffer)
        requires
            old(self)@.capacity == 0,
        ensures
            final(self)@ == old(self)@.with_buffer(buf@),
    {
        let data_len: usize = buf.len();
        let requested_len: usize = buf.requested_len();
        self.capacity = buf.capacity() as u32;
        self.urb.actual_length = 0;
        self.urb.buffer_length = match Direction::from_address(self.urb.endpoint) {
            Direction::Out => data_len as u32 as i32,
            Direction::In => requested_len as u32 as i32,
        };
        self.memory = vstd::slice::slice_to_vec(buf.as_slice());
        assert(self@ =~= old(self)@.with_buffer(buf@));
    }

    /// The request block of the transfer.
    pub fn urb(&self) -> (r: Urb)
        ensures
            r == self@.urb,
    {
        self.urb
    }

    /// The memory that the transfer sends.
    pub fn memory(&self) -> (r: &[u8])
        ensures
            r@ == self@.memory,
    {
        self.memory.as_slice()
    }

    /// Record that the transfer is done: its status, how much was transferred, and what is in
    /// memory now.
    pub fn complete(&mut self, status: i32, actual_length: i32, memory: Vec<u8>)
        ensures
            final(self)@ == (TransferModel {
                urb: Urb { status, actual_length, ..old(self)@.urb },
                memory: memory@,
                ..old(self)@
            }),
    {
        self.urb.status = status;
        self.urb.actual_length = actual_length;
        self.memory = memory;
    }

    /// Record that the transfer could not be submitted.
    pub fn fail_submit(&mut self, e: Errno)
        requires
            e.code <= 4095,
        ensures
            final(self)@ == (TransferModel {
                urb: Urb { status: e.code as i32, actual_length: 0, ..old(self)@.urb },
                ..old(self)@
            }),
    {
        self.urb.actual_length = 0;
        self.urb.status = e.code as i32;
    }

    /// The time at which the transfer is to be cancelled.
    pub fn set_deadline(&mut self, deadline: u64)
        ensures
            final(self)@ == (TransferModel { deadline: Some(deadline), ..old(self)@ }),
    {
        self.deadline = Some(deadline);
    }

    /// The time at which the transfer is to be cancelled, if there is one.
    pub fn deadline(&self) -> (r: Option<u64>)
        ensures
            r == self@.deadline,
    {
        self.deadline
    }

    /// Take the result of the transfer, and its buffer with it.
    pub fn take_completion(&mut self, n: &ErrnoNumbers) -> (r: Completion)
        requires
            old(self)@.is_complete(),
        ensures
            final(self)@ == (TransferModel {
                urb: Urb { buffer_length: 0, actual_length: 0, ..old(self)@.urb },
                memory: seq![],
                capacity: 0,
                ..old(self)@
            }),
            r.status == status_of(old(self)@.urb.status, *n),
            r.actual_len == old(self)@.urb.actual_length,
            r.buffer@ == (BufferModel {
                data: old(self)@.memory.take(old(self)@.result_len() as int),
                requested_len: (old(self)@.urb.buffer_length as u32) as nat,
                capacity: old(self)@.capacity,
            }),
    {
        let status = self.status(n);
        let requested_len: u32 = self.urb.buffer_length as u32;
        let actual_len: usize = self.urb.actual_length as usize;
        let len: u32 = match Direction::from_address(self.urb.endpoint) {
            Direction::Out => self.urb.buffer_length as u32,
            Direction::In => self.urb.actual_length as u32,
        };
        let data = vstd::slice::slice_to_vec(
            vstd::slice::slice_subrange(self.memory.as_slice(), 0, len as usize),
        );
        let capacity: u32 = self.capacity;
        let buffer = Buffer::from_parts(data, requested_len, capacity);
        assert(buffer@ =~= (BufferModel {
            data: old(self)@.memory.take(old(self)@.result_len() as int),
            requested_len: (old(self)@.urb.buffer_length as u32) as nat,
            capacity: old(self)@.capacity,
        }));
        self.memory = Vec::new();
        self.capacity = 0;
        self.urb.buffer_length = 0;
        self.urb.actual_length = 0;
        assert(self@.memory =~= seq![]);
        Completion { status, actual_len, buffer }
    }

    /// Whether the transfer went well.
    pub fn status(&self, n: &ErrnoNumbers) -> (r: Result<(), TransferError>)
        requires
            -4095 <= self@.urb.status <= 4095,
        ensures
            r == status_of(self@.urb.status, *n),
    {
        read_status(self.urb.status, n)
    }

    /// The data that a control request received, which is in memory behind the setup packet.
    pub fn control_in_data(&self) -> (r: &[u8])
        requires
            self@.urb.endpoint == 0x80,
            self@.urb.actual_length >= 0,
            SETUP_PACKET_SIZE + self@.urb.actual_length <= self@.memory.len(),
        ensures
            r@ == self@.memory.subrange(
                SETUP_PACKET_SIZE as int,
                SETUP_PACKET_SIZE + self@.urb.actual_length,
            ),
            r@ == self@.memory.subrange(8, 8 + self@.urb.actual_length),
    {
        let len: usize = self.urb.actual_length as usize;
        let memory = self.memory.as_slice();
        assert(memory.len() == memory@.len());
        vstd::slice::slice_subrange(memory, SETUP_PACKET_SIZE, SETUP_PACKET_SIZE + len)
    }

    /// The data that a control request received, if it went well.
    pub fn control_in_result(&self, n: &ErrnoNumbers) -> (r: Result<Vec<u8>, TransferError>)
        requires
            self@.urb.endpoint == 0x80,
            -4095 <= self@.urb.status <= 4095,
            self@.urb.actual_length >= 0,
            SETUP_PACKET_SIZE + self@.urb.actual_length <= self@.memory.len(),
        ensures
            match r {
                Ok(data) => self@.urb.status == 0 && data@ == self@.memory.subrange(
                    SETUP_PACKET_SIZE as int,
                    SETUP_PACKET_SIZE + self@.urb.actual_length,
                ),
                Err(e) => status_of(self@.urb.status, *n) == Err::<(), TransferError>(e),
            },
            r is Ok <==> self@.urb.status == 0,
            r matches Ok(data) ==> data@ == self@.memory.subrange(8, 8 + self@.urb.actual_length),
    {
        match self.status(n) {
            Ok(_) => Ok(vstd::slice::slice_to_vec(self.control_in_data())),
            Err(e) => Err(e),
        }
    }
}

/// A buffer that goes into a transfer comes out again with the transfer's result: as large as
/// before, and, if it was sent, with the same data.
pub proof fn law_buffer_comes_back(t: TransferModel, buf: BufferModel)
    requires
        buf.data.len() <= buf.capacity <= u32::MAX,
        buf.requested_len <= buf.capacity,
    ensures
        t.with_buffer(buf).capacity == buf.capacity,
        ((t.with_buffer(buf).urb.buffer_length as u32) as nat) == transfer_len(
            t.urb.endpoint,
            buf,
        ),
        Direction::of_address(t.urb.endpoint) == Direction::Out ==> t.with_buffer(buf).memory.take(
            t.with_buffer(buf).result_len() as int,
        ) == buf.data,
        Direction::of_address(t.urb.endpoint) == Direction::In ==> t.with_buffer(buf).result_len()
            == 0,
{
    lemma_signed_and_back(transfer_len(t.urb.endpoint, buf) as u32);
    assert(buf.data.take(buf.data.len() as int) =~= buf.data);
}

/// A transfer asks for what is in its buffer if it sends, and for what is requested if it receives. Of
/// its memory as much counts when it is done as was to be sent, or as was received.
pub proof fn law_transfer_asks_by_direction(
    endpoint: u8,
    ep_type: EndpointType,
    buf: BufferModel,
    status: i32,
    actual_length: i32,
)
    requires
        buf.data.len() <= u32::MAX,
        buf.requested_len <= u32::MAX,
        actual_length >= 0,
    ensures
        ({
            let t = TransferModel::idle(endpoint, ep_type).with_buffer(buf);
            let done = TransferModel { urb: Urb { status, actual_length, ..t.urb }, ..t };
            &&& t.urb.endpoint == endpoint
            &&& t.urb.actual_length == 0
            &&& t.memory == buf.data
            &&& t.capacity == buf.capacity
            &&& t.urb.status == 0 && t.urb.flags == 0 && t.urb.error_count == 0
            &&& t.urb.number_of_packets_or_stream_id == 0
            &&& t.deadline is None
            &&& ep_type == EndpointType::Control <==> t.urb.ep_type == 2
            &&& ep_type == EndpointType::Interrupt <==> t.urb.ep_type == 1
            &&& ep_type == EndpointType::Bulk <==> t.urb.ep_type == 3
            &&& ep_type == EndpointType::Isochronous <==> t.urb.ep_type == 0
            &&& endpoint < 128 ==> t.urb.buffer_length as u32 == buf.data.len() && done.result_len()
                == buf.data.len()
            &&& endpoint >= 128 ==> t.urb.buffer_length as u32 == buf.requested_len
                && done.result_len() == actual_length
        }),
{
    lemma_signed_and_back(transfer_len(endpoint, buf) as u32);
}

/// One packet of an isochronous transfer: how much was asked for, how much was transferred, and
/// the status.
#[derive(Clone, Copy, Debug, PartialEq, Eq, Structural)]
pub struct IsoPacketDesc {
    pub length: u32,
    pub actual_length: u32,
    pub status: u32,
}

/// The length of packet `i` when `total` bytes are cut into packets of a size: as much as is left,
/// up to that size.
pub open spec fn packet_len(total: nat, packet_size: nat, i: nat) -> nat {
    let before = i * packet_size;
    if before >= total {
        0
    } else if total - before < packet_size {
        (total - before) as nat
    } else {
        packet_size
    }
}

/// The packets that `total` bytes are cut into, before anything is transferred.
pub open spec fn packets_for(total: nat, packet_size: nat, count: nat) -> Seq<IsoPacketDesc> {
    Seq::new(
        count,
        |i: int|
            IsoPacketDesc {
                length: packet_len(total, packet_size, i as nat) as u32,
                actual_length: 0,
                status: 0,
            },
    )
}

/// The number of bytes that the packets have together.
pub open spec fn total_len(packets: Seq<IsoPacketDesc>) -> nat
    decreases packets.len(),
{
    if packets.len() == 0 {
        0
    } else {
        total_len(packets.drop_last()) + packets.last().length as nat
    }
}

/// The bytes of the packets before packet `i`.
proof fn lemma_total_len_grows(packets: Seq<IsoPacketDesc>, i: int)
    requires
        0 <= i <= packets.len(),
    ensures
        total_len(packets.take(i)) <= total_len(packets),
    decreases packets.len(),
{
    if i < packets.len() {
        assert(packets.drop_last().take(i) =~= packets.take(i));
        lemma_total_len_grows(packets.drop_last(), i);
    } else {
        assert(packets.take(i) =~= packets);
    }
}

/// Cut into packets, the bytes are all there as long as there are packets for them: the first `n`
/// packets hold the first `n * packet_size` bytes, or all there are.
pub proof fn law_packets_cover_data(total: nat, packet_size: nat, n: nat)
    requires
        total <= u32::MAX,
    ensures
        total_len(packets_for(total, packet_size, n)) == if n * packet_size < total {
            n * packet_size
        } else {
            total
        },
    decreases n,
{
    let packets = packets_for(total, packet_size, n);
    if n == 0 {
        assert(0 * packet_size == 0) by (nonlinear_arith);
    } else {
        let m = (n - 1) as nat;
        law_packets_cover_data(total, packet_size, m);
        assert(packets.drop_last() =~= packets_for(total, packet_size, m));
        assert(n * packet_size == m * packet_size + packet_size) by (nonlinear_arith)
            requires
                n == m + 1,
        ;
    }
}

/// Packets have together what each of them has.
pub proof fn law_lengths_add_up(packets: Seq<IsoPacketDesc>, p: IsoPacketDesc)
    ensures
        total_len(Seq::empty()) == 0,
        total_len(packets.push(p)) == total_len(packets) + p.length,
{
    assert(packets.push(p).drop_last() =~= packets);
}

/// The offset of a packet is where the packet before it ends.
pub open spec fn packet_results(packets: Seq<IsoPacketDesc>) -> Seq<IsoPacketResult> {
    Seq::new(
        packets.len(),
        |i: int|
            IsoPacketResult {
                offset: total_len(packets.take(i)) as usize,
                length: packets[i].length as usize,
                actual_length: packets[i].actual_length as usize,
                status: packets[i].status as i32,
            },
    )
}

/// The data of two packets never overlaps, and all of it is inside the buffer.
pub proof fn law_packets_are_apart(packets: Seq<IsoPacketDesc>, i: int, j: int)
    requires
        0 <= i < j < packets.len(),
        total_len(packets) <= u32::MAX,
    ensures
        packet_results(packets)[i].offset + packet_results(packets)[i].length <= packet_results(
            packets,
        )[j].offset,
        packet_results(packets)[j].offset + packet_results(packets)[j].length <= total_len(packets),
{
    lemma_total_len_grows(packets.take(j), i + 1);
    assert(packets.take(j).take(i + 1) =~= packets.take(i + 1));
    assert(packets.take(i + 1).drop_last() =~= packets.take(i));
    lemma_total_len_grows(packets, j + 1);
    assert(packets.take(j + 1).drop_last() =~= packets.take(j));
}

/// Data is cut into packets of the size given, from the front, and the last packet that has any takes
/// what is left.
pub proof fn law_packets_are_full_but_last(total: nat, packet_size: nat, count: nat, i: int)
    requires
        total <= u32::MAX,
        packet_size <= u32::MAX,
        0 <= i < count,
    ensures
        ({
            let p = packets_for(total, packet_size, count)[i];
            &&& packets_for(total, packet_size, count).len() == count
            &&& (i + 1) * packet_size <= total ==> p.length == packet_size
            &&& i * packet_size <= total < (i + 1) * packet_size ==> p.length == total - i
                * packet_size
            &&& total <= i * packet_size ==> p.length == 0
            &&& p.actual_length == 0
            &&& p.status == 0
        }),
{
    assert((i + 1) * packet_size == i * packet_size + packet_size) by (nonlinear_arith);
}

/// The data of a packet is where that of the packet before it ends, the first at the beginning of the
/// buffer, and what the operating system says of a packet is its result.
pub proof fn law_packets_follow_each_other(packets: Seq<IsoPacketDesc>, i: int)
    requires
        0 <= i < packets.len(),
        total_len(packets) <= u32::MAX,
    ensures
        ({
            let r = packet_results(packets);
            &&& r.len() == packets.len()
            &&& r[0].offset == 0
            &&& i + 1 < packets.len() ==> r[i + 1].offset == r[i].offset + packets[i].length
            &&& r[i].length == packets[i].length
            &&& r[i].actual_length == packets[i].actual_length
            &&& r[i].status == packets[i].status as i32
        }),
{
    assert(packets.take(0) =~= seq![]);
    assert(packets.take(i + 1).drop_last() =~= packets.take(i));
    lemma_total_len_grows(packets, i + 1);
}

/// What is known of an isochronous transfer.
#[verifier::ext_equal]
pub struct IsoModel {
    pub urb: Urb,
    pub packets: Seq<IsoPacketDesc>,
    pub memory: Seq<u8>,
    pub capacity: nat,
}

/// A request block for isochronous packets with nothing to transfer.
pub open spec fn idle_iso_urb(endpoint: u8, num_packets: nat) -> Urb {
    Urb {
        ep_type: USBDEVFS_URB_TYPE_ISO,
        endpoint,
        status: 0,
        flags: USBDEVFS_URB_ISO_ASAP,
        buffer_length: 0,
        actual_length: 0,
        number_of_packets_or_stream_id: num_packets as u32,
        error_count: 0,
    }
}

/// A request block for isochronous packets is to be run as soon as possible, and has nothing to transfer.
pub proof fn law_isochronous_transfer_starts_soon(endpoint: u8, num_packets: nat)
    requires
        num_packets <= u32::MAX,
    ensures
        ({
            let urb = idle_iso_urb(endpoint, num_packets);
            &&& urb.ep_type == 0 && urb.endpoint == endpoint && urb.flags == 2
            &&& urb.number_of_packets_or_stream_id == num_packets
            &&& urb.status == 0 && urb.error_count == 0
            &&& urb.buffer_length == 0 && urb.actual_length == 0
        }),
{
}

/// The state of an isochronous transfer: its request block, its packets, and the memory that it
/// fills or sends.
#[derive(Debug)]
pub struct IsoTransferData {
    urb: Urb,
    packets: Vec<IsoPacketDesc>,
    memory: Vec<u8>,
    capacity: u32,
}

impl View for IsoTransferData {
    type V = IsoModel;

    closed spec fn view(&self) -> IsoModel {
        IsoModel {
            urb: self.urb,
            packets: self.packets@,
            memory: self.memory@,
            capacity: self.capacity as nat,
        }
    }
}

impl IsoTransferData {
    /// Create a new isochronous transfer with the specified number of packets.
    pub fn new(endpoint: u8, num_packets: usize) -> (r: IsoTransferData)
        requires
            num_packets <= u32::MAX,
        ensures
            r@ == (IsoModel {
                urb: idle_iso_urb(endpoint, num_packets as nat),
                packets: packets_for(0, 0, num_packets as nat),
                memory: seq![],
                capacity: 0,
            }),
            r@.urb.ep_type == 0 && r@.urb.endpoint == endpoint && r@.urb.flags == 2,
            r@.urb.number_of_packets_or_stream_id == num_packets,
            r@.urb.status == 0 && r@.urb.buffer_length == 0 && r@.urb.actual_length == 0
                && r@.urb.error_count == 0,
            r@.packets.len() == num_packets,
            r@.memory.len() == 0 && r@.capacity == 0,
    {
        let mut packets: Vec<IsoPacketDesc> = Vec::new();
        while packets.len() < num_packets
            invariant
                packets@.len() <= num_packets,
                packets@ == packets_for(0, 0, packets@.len()),
            decreases num_packets - packets@.len(),
        {
            packets.push(IsoPacketDesc { length: 0, actual_length: 0, status: 0 });
            assert(packets@ =~= packets_for(0, 0, packets@.len()));
        }
        let r = IsoTransferData {
            urb: Urb {
                ep_type: USBDEVFS_URB_TYPE_ISO,
                endpoint,
                status: 0,
                flags: USBDEVFS_URB_ISO_ASAP,
                buffer_length: 0,
                actual_length: 0,
                number_of_packets_or_stream_id: num_packets as u32,
                error_count: 0,
            },
            packets,
            memory: Vec::new(),
            capacity: 0,
        };
        assert(r@.memory =~= seq![]);
        r
    }

    /// Set the buffer and initialize packet descriptors.
    ///
    /// `packet_size` is the size of each isochronous packet.
    pub fn set_buffer(&mut self, buf: Buffer, packet_size: usize)
        requires
            old(self)@.capacity == 0,
            transfer_len(old(self)@.urb.endpoint, buf@) <= i32::MAX,
        ensures
            final(self)@ == (IsoModel {
                urb: Urb {
                    actual_length: 0,
                    buffer_length: transfer_len(old(self)@.urb.endpoint, buf@) as i32,
                    ..old(self)@.urb
                },
                packets: packets_for(
                    transfer_len(old(self)@.urb.endpoint, buf@),
                    packet_size as nat,
                    old(self)@.packets.len(),
                ),
                memory: buf@.data,
                capacity: buf@.capacity,
            }),
            old(self)@.urb.endpoint < 128 ==> final(self)@.urb.buffer_length == buf@.data.len(),
            old(self)@.urb.endpoint >= 128 ==> final(self)@.urb.buffer_length
                == buf@.requested_len,
    {
        let data_len: usize = buf.len();
        let requested_len: usize = buf.requested_len();
        let total: usize = match Direction::from_address(self.urb.endpoint) {
            Direction::Out => data_len,
            Direction::In => requested_len,
        };
        self.capacity = buf.capacity() as u32;
        self.urb.actual_length = 0;
        self.urb.buffer_length = total as i32;
        self.memory = vstd::slice::slice_to_vec(buf.as_slice());

        let num_packets: usize = self.packets.len();
        let mut packets: Vec<IsoPacketDesc> = Vec::new();
        let mut offset: usize = 0;
        proof {
            law_packets_cover_data(total as nat, packet_size as nat, 0);
        }
        while packets.len() < num_packets
            invariant
                total <= i32::MAX,
                packets@.len() <= num_packets,
                packets@ == packets_for(total as nat, packet_size as nat, packets@.len()),
                offset == total_len(packets@),
                offset <= total,
                offset == if packets@.len() * packet_size < total {
                    (packets@.len() * packet_size) as int
                } else {
                    total as int
                },
            decreases num_packets - packets@.len(),
        {
            let remaining: usize = total - offset;
            let len: usize = if remaining < packet_size {
                remaining
            } else {
                packet_size
            };
            let ghost before = packets@;
            packets.push(IsoPacketDesc { length: len as u32, actual_length: 0, status: 0 });
            offset = offset + len;
            proof {
                assert(packets@.drop_last() =~= before);
                let n = before.len() as int;
                assert((n + 1) * packet_size == n * packet_size + packet_size) by (nonlinear_arith);
                assert(packets@ =~= packets_for(total as nat, packet_size as nat, packets@.len()));
                law_packets_cover_data(total as nat, packet_size as nat, packets@.len());
            }
        }
        self.packets = packets;
        assert(self@.memory =~= buf@.data);
    }

    /// Record that the transfer is done: its status, the result of each packet, the number of
    /// packets that failed, and what is in memory now.
    pub fn complete(
        &mut self,
        status: i32,
        error_count: i32,
        results: &[(u32, u32)],
        memory: Vec<u8>,
    )
        requires
            results@.len() == old(self)@.packets.len(),
        ensures
            final(self)@ == (IsoModel {
                urb: Urb { status, error_count, ..old(self)@.urb },
                packets: Seq::new(
                    old(self)@.packets.len(),
                    |i: int|
                        IsoPacketDesc {
                            length: old(self)@.packets[i].length,
                            actual_length: results@[i].0,
                            status: results@[i].1,
                        },
                ),
                memory: memory@,
                ..old(self)@
            }),
    {
        self.urb.status = status;
        self.urb.error_count = error_count;
        self.memory = memory;
        let mut packets: Vec<IsoPacketDesc> = Vec::new();
        let mut i: usize = 0;
        while i < self.packets.len()
            invariant
                i <= self.packets@.len(),
                self.packets@ == old(self).packets@,
                results@.len() == self.packets@.len(),
                packets@.len() == i,
                forall|k: int|
                    0 <= k < i ==> #[trigger] packets@[k] == (IsoPacketDesc {
                        length: self.packets@[k].length,
                        actual_length: results@[k].0,
                        status: results@[k].1,
                    }),
            decreases self.packets@.len() - i,
        {
            let length: u32 = self.packets[i].length;
            packets.push(
                IsoPacketDesc { length, actual_length: results[i].0, status: results[i].1 },
            );
            i = i + 1;
        }
        let ghost target = Seq::new(
            old(self)@.packets.len(),
            |i: int|
                IsoPacketDesc {
                    length: old(self)@.packets[i].length,
                    actual_length: results@[i].0,
                    status: results@[i].1,
                },
        );
        assert(packets@ =~= target);
        self.packets = packets;
    }

    /// Take the completion result, consuming the buffer.
    ///
    /// The length of the buffer is always the requested length because each packet's data is placed
    /// at its expected offset, not packed together.
    pub fn take_completion(&mut self, n: &ErrnoNumbers) -> (r: IsoCompletion)
        requires
            -4095 <= old(self)@.urb.status <= 4095,
            old(self)@.urb.error_count >= 0,
            0 <= old(self)@.urb.buffer_length <= old(self)@.memory.len() <= old(self)@.capacity,
            total_len(old(self)@.packets) <= u32::MAX,
        ensures
            r.packets@ == packet_results(old(self)@.packets),
            r.error_count == old(self)@.urb.error_count,
            r.status == status_of(old(self)@.urb.status, *n),
            r.buffer@ == (BufferModel {
                data: old(self)@.memory.take(old(self)@.urb.buffer_length as int),
                requested_len: old(self)@.urb.buffer_length as nat,
                capacity: old(self)@.capacity,
            }),
            final(self)@ == (IsoModel {
                urb: Urb { buffer_length: 0, actual_length: 0, ..old(self)@.urb },
                memory: seq![],
                capacity: 0,
                ..old(self)@
            }),
    {
        let status = self.status(n);
        let mut packets: Vec<IsoPacketResult> = Vec::new();
        let mut offset: usize = 0;
        let mut i: usize = 0;
        assert(self.packets@.take(0) =~= seq![]);
        while i < self.packets.len()
            invariant
                i <= self.packets@.len(),
                *self == *old(self),
                total_len(self.packets@) <= u32::MAX,
                offset == total_len(self.packets@.take(i as int)),
                packets@.len() == i,
                forall|k: int|
                    0 <= k < i ==> #[trigger] packets@[k] == packet_results(self.packets@)[k],
            decreases self.packets@.len() - i,
        {
            let desc = self.packets[i];
            proof {
                lemma_total_len_grows(self.packets@, i + 1);
                assert(self.packets@.take(i + 1).drop_last() =~= self.packets@.take(i as int));
            }
            packets.push(
                IsoPacketResult {
                    offset,
                    length: desc.length as usize,
                    actual_length: desc.actual_length as usize,
                    status: desc.status as i32,
                },
            );
            offset = offset + desc.length as usize;
            i = i + 1;
        }
        assert(packets@ =~= packet_results(self.packets@));
        let error_count: usize = self.urb.error_count as usize;
        let len: u32 = self.urb.buffer_length as u32;
        let data = vstd::slice::slice_to_vec(
            vstd::slice::slice_subrange(self.memory.as_slice(), 0, len as usize),
        );
        let buffer = Buffer::from_parts(data, len, self.capacity);
        assert(buffer@ =~= (BufferModel {
            data: old(self)@.memory.take(old(self)@.urb.buffer_length as int),
            requested_len: old(self)@.urb.buffer_length as nat,
            capacity: old(self)@.capacity,
        }));
        self.memory = Vec::new();
        self.capacity = 0;
        self.urb.buffer_length = 0;
        self.urb.actual_length = 0;
        assert(self@.memory =~= seq![]);
        IsoCompletion { buffer, packets, error_count, status }
    }

    /// Get the number of packets in this transfer.
    pub fn num_packets(&self) -> (r: usize)
        ensures
            r == self@.packets.len(),
    {
        self.packets.len()
    }

    /// Whether the transfer as a whole went well.
    pub fn status(&self, n: &ErrnoNumbers) -> (r: Result<(), TransferError>)
        requires
            -4095 <= self@.urb.status <= 4095,
        ensures
            r == status_of(self@.urb.status, *n),
    {
        read_status(self.urb.status, n)
    }
}

} // verus!
