//! Transfers through `ugen`: blocking control requests, and asynchronous reads and writes.

use vstd::prelude::*;

use crate::endpoint::{self, System};
use crate::platform::errno::{self, Errno, ErrnoKind, ErrnoNumbers};
use crate::transfer::{
    Buffer, BufferModel, Completion, ControlIn, ControlOut, Direction, TransferError,
    SETUP_PACKET_SIZE,
};

use super::{errno_to_transfer_error, ugen_to_transfer_error};

verus! {

/// The status of `ugen` for an unspecified error.
pub const USB_LC_STAT_UNSPECIFIED_ERR: u32 = 0x0e;

/// Why a transfer failed: either the read or write did, or the status file has an error.
#[derive(Debug, Clone, Copy, PartialEq, Eq, Structural)]
pub enum UsbResult {
    Errno(Errno),
    UgenStat(u32),
    Cancelled,
}

impl UsbResult {
    /// The transfer error that this stands for.
    pub open spec fn transfer_error(self) -> TransferError {
        match self {
            UsbResult::Errno(e) => errno::common_transfer_error(e),
            UsbResult::UgenStat(e) => super::ugen_error_of(e),
            UsbResult::Cancelled => TransferError::Cancelled,
        }
    }

    /// The transfer error that this stands for.
    pub fn to_transfer_error(self) -> (r: TransferError)
        ensures
            r == self.transfer_error(),
            self matches UsbResult::Errno(e) ==> r == errno::common_transfer_error(e),
            self matches UsbResult::UgenStat(e) ==> r == super::ugen_error_of(e),
            self == UsbResult::Cancelled ==> r == TransferError::Cancelled,
    {
        match self {
            UsbResult::Errno(e) => errno_to_transfer_error(e),
            UsbResult::UgenStat(e) => ugen_to_transfer_error(e),
            UsbResult::Cancelled => TransferError::Cancelled,
        }
    }
}

/// What reading the status file gave: how many bytes, and four bytes of them.
pub type StatReply = Result<(usize, [u8; 4]), Errno>;

/// The 32-bit number that four bytes are in little-endian order.
pub open spec fn le32(b: Seq<u8>) -> u32 {
    (b[0] + 256 * b[1] + 65536 * b[2] + 16777216 * b[3]) as u32
}

/// What the status file says of a transfer that failed.
pub open spec fn stat_error(stat: StatReply) -> UsbResult {
    match stat {
        Ok((n, bytes)) => if n == 4 {
            UsbResult::UgenStat(le32(bytes@))
        } else {
            UsbResult::UgenStat(USB_LC_STAT_UNSPECIFIED_ERR)
        },
        Err(e) => UsbResult::Errno(e),
    }
}

fn read_stat(stat: StatReply) -> (r: UsbResult)
    ensures
        r == stat_error(stat),
{
    match stat {
        Ok((n, bytes)) => {
            if n == 4 {
                let e: u32 = bytes[0] as u32 + 256 * bytes[1] as u32 + 65536 * bytes[2] as u32
                    + 16777216 * bytes[3] as u32;
                UsbResult::UgenStat(e)
            } else {
                // As the example of the man page does.
                UsbResult::UgenStat(USB_LC_STAT_UNSPECIFIED_ERR)
            }
        },
        Err(e) => UsbResult::Errno(e),
    }
}

/// Whether the status file has to be asked: it has the error if the error number is -1.
pub open spec fn asks_stat(status: Result<usize, Errno>) -> bool {
    status matches Err(e) && e.code == u32::MAX
}

/// Whether the status file has to be asked what went wrong.
pub fn needs_stat(status: Result<usize, Errno>) -> (r: bool)
    ensures
        r == asks_stat(status),
{
    match status {
        Err(e) => e.code == u32::MAX,
        Ok(_) => false,
    }
}

/// The outcome of a read or write, where the status file had to be asked with what it says.
pub open spec fn outcome_of(status: Result<usize, Errno>, stat: Option<StatReply>) -> Result<
    usize,
    UsbResult,
> {
    match status {
        Ok(n) => Ok(n),
        Err(e) => match stat {
            Some(stat) if asks_stat(status) => Err(stat_error(stat)),
            _ => Err(UsbResult::Errno(e)),
        },
    }
}

/// The outcome of a read or write. Where the status file has to be asked, `stat` is its reply.
pub fn handle_errno_result(status: Result<usize, Errno>, stat: Option<StatReply>) -> (r: Result<
    usize,
    UsbResult,
>)
    requires
        asks_stat(status) ==> stat is Some,
    ensures
        r == outcome_of(status, stat),
{
    match status {
        Ok(n) => Ok(n),
        Err(e) => {
            if needs_stat(status) {
                if let Some(stat) = stat {
                    return Err(read_stat(stat));
                }
            }
            Err(UsbResult::Errno(e))
        },
    }
}

/// A control request that is made by a write, followed by a read for its data if it receives any.
#[derive(Debug)]
pub struct BlockingTransferData {
    /// The setup packet, followed by the data that is sent
    pub out_buffer: Vec<u8>,
    /// The number of bytes to read
    pub data_in_len: usize,
}

impl BlockingTransferData {
    /// A request that sends data.
    pub fn new_control_out(data: ControlOut<'_>) -> (r: BlockingTransferData)
        requires
            data.data@.len() <= 0xffff,
        ensures
            r.data_in_len == 0,
            r.out_buffer@ == crate::transfer::setup_bytes(
                crate::transfer::request_type_of(
                    Direction::Out,
                    data.control_type,
                    data.recipient,
                ),
                data.request,
                data.value,
                data.index,
                data.data@.len() as u16,
            ) + data.data@,
    {
        let packet = data.setup_packet();
        let mut out_buffer: Vec<u8> = Vec::with_capacity(SETUP_PACKET_SIZE + data.data.len());
        out_buffer.extend_from_slice(packet.as_slice());
        out_buffer.extend_from_slice(data.data);
        assert(out_buffer@ =~= packet@ + data.data@);
        BlockingTransferData { out_buffer, data_in_len: 0 }
    }

    /// A request that receives data.
    pub fn new_control_in(data: ControlIn) -> (r: BlockingTransferData)
        ensures
            r.data_in_len == data.length,
            r.out_buffer@ == crate::transfer::setup_bytes(
                crate::transfer::request_type_of(
                    Direction::In,
                    data.control_type,
                    data.recipient,
                ),
                data.request,
                data.value,
                data.index,
                data.length,
            ),
    {
        let packet = data.setup_packet();
        let mut out_buffer: Vec<u8> = Vec::with_capacity(SETUP_PACKET_SIZE);
        out_buffer.extend_from_slice(packet.as_slice());
        assert(out_buffer@ =~= packet@);
        BlockingTransferData { out_buffer, data_in_len: data.length as usize }
    }
}

/// What writing a control request comes to.
pub fn written(status: Result<usize, Errno>, stat: Option<StatReply>) -> (r: Result<
    (),
    TransferError,
>)
    requires
        asks_stat(status) ==> stat is Some,
    ensures
        r == match outcome_of(status, stat) {
            Ok(_) => Ok::<(), TransferError>(()),
            Err(e) => Err(e.transfer_error()),
        },
{
    match handle_errno_result(status, stat) {
        Ok(_) => Ok(()),
        Err(e) => Err(e.to_transfer_error()),
    }
}

/// What reading the data of a control request comes to.
pub fn received(status: Result<Vec<u8>, Errno>, stat: Option<StatReply>) -> (r: Result<
    Vec<u8>,
    TransferError,
>)
    requires
        status matches Err(e) ==> (asks_stat(Err(e)) ==> stat is Some),
    ensures
        match status {
            Ok(data) => r == Ok::<Vec<u8>, TransferError>(data),
            Err(e) => r == Err::<Vec<u8>, TransferError>(
                (outcome_of(Err(e), stat)->Err_0).transfer_error(),
            ),
        },
{
    match status {
        Ok(data) => Ok(data),
        Err(e) => match handle_errno_result(Err(e), stat) {
            Ok(_) => Ok(Vec::new()),
            Err(e) => Err(e.to_transfer_error()),
        },
    }
}

/// A transfer that has failed with the number -1 has its status in the status file, in four bytes, the
/// lowest first. A status that is not whole is an unspecified error, and a status file that cannot be
/// read has failed itself. Any other number is the error itself, and no error is none.
pub proof fn law_status_file_tells(
    status: Result<usize, Errno>,
    count: usize,
    bytes: [u8; 4],
    failure: Errno,
)
    ensures
        status matches Ok(n) ==> !asks_stat(status) && outcome_of(status, None) == Ok::<
            usize,
            UsbResult,
        >(n),
        status matches Err(e) ==> {
            &&& asks_stat(status) <==> e.code == 0xffff_ffff
            &&& e.code != 0xffff_ffff ==> outcome_of(status, None) == Err::<usize, UsbResult>(
                UsbResult::Errno(e),
            ) && outcome_of(status, Some(Ok((count, bytes)))) == Err::<usize, UsbResult>(
                UsbResult::Errno(e),
            )
            &&& e.code == 0xffff_ffff ==> {
                &&& outcome_of(status, Some(Err(failure))) == Err::<usize, UsbResult>(
                    UsbResult::Errno(failure),
                )
                &&& count != 4 ==> outcome_of(status, Some(Ok((count, bytes)))) == Err::<
                    usize,
                    UsbResult,
                >(UsbResult::UgenStat(14))
                &&& count == 4 ==> (outcome_of(status, Some(Ok((count, bytes)))) matches Err(
                    UsbResult::UgenStat(v),
                ) && v == bytes@[0] + 256 * (bytes@[1] + 256 * (bytes@[2] + 256 * bytes@[3])))
            }
        },
        stat_error(Err(failure)) == UsbResult::Errno(failure),
        count != 4 ==> stat_error(Ok((count, bytes))) == UsbResult::UgenStat(14),
        count == 4 ==> (stat_error(Ok((count, bytes))) matches UsbResult::UgenStat(v) && v
            == bytes@[0] + 256 * (bytes@[1] + 256 * (bytes@[2] + 256 * bytes@[3]))),
{
}

/// An error number of an asynchronous read or write is that error, except that one that was cancelled
/// before it was executed is cancelled.
pub proof fn law_error_numbers_tell(error: i32, n: ErrnoNumbers)
    ensures
        errno::kind_of(error, n) == ErrnoKind::Canceled ==> aio_error(error, n)
            == UsbResult::Cancelled,
        errno::kind_of(error, n) != ErrnoKind::Canceled ==> aio_error(error, n) == UsbResult::Errno(
            Errno { code: error as u32, kind: errno::kind_of(error, n) },
        ),
{
}

/// What an error number of an asynchronous read or write comes to: one that was cancelled before it
/// was executed has a number of its own.
pub open spec fn aio_error(error: i32, n: ErrnoNumbers) -> UsbResult {
    let e = errno::errno_of(error, n);
    if e.kind == ErrnoKind::Canceled {
        UsbResult::Cancelled
    } else {
        UsbResult::Errno(e)
    }
}

/// A transfer that was cancelled before it was executed is reported as cancelled, on every system.
pub proof fn law_cancelled_transfer_is_reported(n: ErrnoNumbers)
    requires
        n.are_distinct(),
    ensures
        aio_error(n.canceled, n).transfer_error() == TransferError::Cancelled,
{
    errno::law_numbers_stand_for_conditions(n, n.canceled);
}

/// An asynchronous read or write that is to be started.
#[derive(Debug, Clone, Copy, PartialEq, Eq, Structural)]
pub struct AioRequest {
    pub direction: Direction,
    pub nbytes: usize,
}

/// What is known of a transfer.
#[verifier::ext_equal]
pub struct TransferModel {
    pub direction: Direction,
    /// The buffer, until the completion is taken
    pub buffer: Option<BufferModel>,
    /// How the transfer came out, between its end and the taking of the completion
    pub status: Option<Result<usize, UsbResult>>,
    /// What is in the memory of the buffer once the transfer is over
    pub memory: Seq<u8>,
    /// Whether the operating system still has the transfer
    pub live: bool,
}

impl TransferModel {
    /// A transfer that was not started.
    pub open spec fn idle(direction: Direction, buffer: BufferModel) -> TransferModel {
        TransferModel { direction, buffer: Some(buffer), status: None, memory: seq![], live: false }
    }

    /// The number of bytes that are read or written.
    pub open spec fn nbytes(self) -> nat {
        match self.direction {
            Direction::In => self.buffer->0.requested_len,
            Direction::Out => self.buffer->0.data.len(),
        }
    }

    /// Whether the transfer is over and its completion was not taken.
    pub open spec fn is_complete(self) -> bool {
        &&& !self.live
        &&& self.buffer is Some
        &&& self.status is Some
        &&& match self.status->0 {
            Ok(n) => n <= self.nbytes() && (self.direction == Direction::In ==> n
                <= self.memory.len()),
            Err(_) => true,
        }
    }

    /// The bytes in the buffer once the transfer is over: those received, or those sent.
    pub open spec fn result_data(self) -> Seq<u8> {
        match self.direction {
            Direction::In => match self.status->0 {
                Ok(n) => self.memory.take(n as int),
                Err(_) => seq![],
            },
            Direction::Out => self.buffer->0.data,
        }
    }
}

/// An asynchronous transfer.
///
/// While the operating system has it, nothing but its end changes it.
#[derive(Debug)]
pub struct TransferData {
    direction: Direction,
    buffer: Option<Buffer>,
    status: Option<Result<usize, UsbResult>>,
    memory: Vec<u8>,
    live: bool,
}

impl View for TransferData {
    type V = TransferModel;

    closed spec fn view(&self) -> TransferModel {
        TransferModel {
            direction: self.direction,
            buffer: match self.buffer {
                Some(b) => Some(b@),
                None => None,
            },
            status: self.status,
            memory: self.memory@,
            live: self.live,
        }
    }
}

impl TransferData {
    /// A transfer in a direction with a buffer.
    pub fn new(direction: Direction, buffer: Buffer) -> (r: TransferData)
        ensures
            r@ == TransferModel::idle(direction, buffer@),
    {
        let r = TransferData {
            direction,
            buffer: Some(buffer),
            status: None,
            memory: Vec::new(),
            live: false,
        };
        assert(r@ =~= TransferModel::idle(direction, buffer@));
        r
    }

    /// A transfer that receives data.
    pub fn new_bulk_in(buffer: Buffer) -> (r: TransferData)
        ensures
            r@ == TransferModel::idle(Direction::In, buffer@),
    {
        TransferData::new(Direction::In, buffer)
    }

    /// A transfer that sends data.
    pub fn new_bulk_out(buffer: Buffer) -> (r: TransferData)
        ensures
            r@ == TransferModel::idle(Direction::Out, buffer@),
    {
        TransferData::new(Direction::Out, buffer)
    }

    /// A transfer for an endpoint.
    pub fn for_endpoint(address: u8, buffer: Buffer) -> (r: TransferData)
        ensures
            r@ == TransferModel::idle(Direction::of_address(address), buffer@),
    {
        match Direction::from_address(address) {
            Direction::In => TransferData::new_bulk_in(buffer),
            Direction::Out => TransferData::new_bulk_out(buffer),
        }
    }

    /// Hand the transfer to the operating system, as the request that is returned.
    pub fn start(&mut self) -> (r: AioRequest)
        requires
            !old(self)@.live,
            old(self)@.buffer is Some,
        ensures
            final(self)@ == (TransferModel { live: true, ..old(self)@ }),
            r.direction == old(self)@.direction,
            r.nbytes == old(self)@.nbytes(),
    {
        let nbytes: usize = match &self.buffer {
            Some(buffer) => match self.direction {
                Direction::In => buffer.requested_len(),
                Direction::Out => buffer.len(),
            },
            None => 0,
        };
        self.live = true;
        AioRequest { direction: self.direction, nbytes }
    }

    /// The transfer could not be started, and is over.
    pub fn fail(&mut self, e: Errno)
        ensures
            final(self)@ == (TransferModel {
                status: Some(Err(UsbResult::Errno(e))),
                live: false,
                ..old(self)@
            }),
    {
        self.status = Some(Err(UsbResult::Errno(e)));
        self.live = false;
    }

    /// The operating system is done with the transfer: `error` is what `aio_error` says of it,
    /// `returned` what `aio_return` says if there is no error, `stat` what the status file says if
    /// the error is -1, and `memory` what was received.
    pub fn finish(
        &mut self,
        error: i32,
        returned: isize,
        stat: Option<StatReply>,
        memory: Vec<u8>,
        n: &ErrnoNumbers,
    )
        requires
            old(self)@.live,
            error == 0 ==> returned >= 0,
            error == -1 ==> stat is Some,
        ensures
            final(self)@ == (TransferModel {
                status: Some(
                    if error == 0 {
                        Ok(returned as usize)
                    } else if error == -1 {
                        Err(stat_error(stat->0))
                    } else {
                        Err(aio_error(error, *n))
                    },
                ),
                memory: memory@,
                live: false,
                ..old(self)@
            }),
    {
        let status: Result<usize, UsbResult> = if error == 0 {
            Ok(returned as usize)
        } else if error == -1 {
            match stat {
                Some(stat) => Err(read_stat(stat)),
                None => Err(UsbResult::UgenStat(USB_LC_STAT_UNSPECIFIED_ERR)),
            }
        } else {
            let e = Errno::from_raw_os_error(error, n);
            match e.kind {
                // The transfer was cancelled before it was executed.
                ErrnoKind::Canceled => Err(UsbResult::Cancelled),
                _ => Err(UsbResult::Errno(e)),
            }
        };
        self.status = Some(status);
        self.memory = memory;
        self.live = false;
    }

    /// Take the result of the transfer, and its buffer with it.
    pub fn take_completion(&mut self) -> (r: Completion)
        requires
            old(self)@.is_complete(),
        ensures
            final(self)@.buffer is None,
            final(self)@.status is None,
            !final(self)@.live,
            final(self)@.direction == old(self)@.direction,
            match old(self)@.status->0 {
                Ok(n) => r.status is Ok && r.actual_len == n,
                Err(e) => r.status == Err::<(), TransferError>(e.transfer_error()) && r.actual_len
                    == 0,
            },
            r.buffer@ == (BufferModel {
                data: old(self)@.result_data(),
                ..old(self)@.buffer->0
            }),
    {
        let mut status: Option<Result<usize, UsbResult>> = None;
        std::mem::swap(&mut status, &mut self.status);
        let mut buffer: Option<Buffer> = None;
        std::mem::swap(&mut buffer, &mut self.buffer);
        let mut memory: Vec<u8> = Vec::new();
        std::mem::swap(&mut memory, &mut self.memory);
        let (len, status): (usize, Result<(), TransferError>) = match status {
            Some(Ok(n)) => (n, Ok(())),
            Some(Err(e)) => (0, Err(e.to_transfer_error())),
            None => (0, Ok(())),
        };
        let buffer = match buffer {
            Some(buffer) => buffer,
            None => Buffer::new(0),
        };
        let buffer = match self.direction {
            Direction::In => {
                let requested_len: usize = buffer.requested_len();
                let capacity: usize = buffer.capacity();
                memory.truncate(len);
                assert(memory@ =~= old(self)@.result_data());
                Buffer::from_parts(memory, requested_len as u32, capacity as u32)
            },
            Direction::Out => buffer,
        };
        assert(buffer@ =~= (BufferModel {
            data: old(self)@.result_data(),
            ..old(self)@.buffer->0
        }));
        Completion { status, actual_len: len, buffer }
    }

    /// Whether the operating system is to be asked to cancel the transfer: not if it is over.
    pub fn is_live(&self) -> (r: bool)
        ensures
            r == self@.live,
    {
        self.live
    }
}

/// What asking the operating system to cancel a transfer can come to.
#[derive(Debug, Clone, Copy, PartialEq, Eq, Structural)]
pub enum CancelReply {
    Canceled,
    AllDone,
    NotCanceled,
    Failed,
}

/// Whether the reply to cancelling a transfer makes sense: the operating system is not done with a
/// transfer before its end was recorded.
pub fn cancel_is_sound(reply: CancelReply, still_live: bool) -> (r: bool)
    ensures
        r == !(reply == CancelReply::AllDone && still_live),
{
    match reply {
        CancelReply::AllDone => !still_live,
        _ => true,
    }
}

/// A transfer asks for as many bytes as the buffer is to receive, or sends as many as it has. Once it is
/// over, a buffer that was to receive has what was received, from the start of the memory, or nothing if
/// the transfer failed; and one that was sent has what it had.
pub proof fn law_transfer_reads_or_writes_buffer(m: TransferModel, direction: Direction, b: BufferModel)
    ensures
        ({
            let t = TransferModel::idle(direction, b);
            &&& t.direction == direction && t.buffer == Some(b) && t.status is None && !t.live
            &&& direction == Direction::In ==> t.nbytes() == b.requested_len
            &&& direction == Direction::Out ==> t.nbytes() == b.data.len()
        }),
        m.buffer is Some && m.direction == Direction::Out ==> m.nbytes() == m.buffer->0.data.len(),
        m.buffer is Some && m.direction == Direction::In ==> m.nbytes() == m.buffer->0.requested_len,
        m.is_complete() <==> !m.live && m.buffer is Some && m.status is Some && (
        m.status->0 matches Ok(n) ==> n <= m.nbytes() && (m.direction == Direction::In ==> n
            <= m.memory.len())),
        m.is_complete() && m.direction == Direction::Out ==> m.result_data() == m.buffer->0.data,
        m.is_complete() && m.direction == Direction::In ==> match m.status->0 {
            Ok(n) => m.result_data().len() == n && m.result_data().is_prefix_of(m.memory),
            Err(e) => m.result_data().len() == 0,
        },
{
}

/// A buffer that goes into a transfer comes out again with the transfer's result: as large as
/// before, and, if it was sent, with the same data.
pub proof fn law_buffer_comes_back(
    direction: Direction,
    buffer: BufferModel,
    status: Result<usize, UsbResult>,
    memory: Seq<u8>,
)
    requires
        direction == Direction::In && status is Ok ==> status->Ok_0 <= memory.len(),
    ensures
        ({
            let done = TransferModel {
                status: Some(status),
                memory,
                ..TransferModel::idle(direction, buffer)
            };
            &&& done.buffer->0.capacity == buffer.capacity
            &&& done.buffer->0.requested_len == buffer.requested_len
            &&& direction == Direction::Out ==> done.result_data() == buffer.data
            &&& direction == Direction::In ==> done.result_data().len() == match status {
                Ok(n) => n as nat,
                Err(_) => 0,
            }
        }),
{
}

/// A transfer that is refused because of its arguments completes as one does that could not be
/// started for an invalid argument.
pub proof fn law_refused_as_not_started(address: u8, buffer: BufferModel, n: ErrnoNumbers)
    requires
        n.are_distinct(),
    ensures
        ({
            let e = errno::errno_of(n.inval, n);
            let t = TransferModel {
                status: Some(Err(UsbResult::Errno(e))),
                ..TransferModel::idle(Direction::of_address(address), buffer)
            };
            let system = System::Ugen { inval: n.inval as u32 };
            let c = endpoint::failed(
                system,
                address,
                buffer,
                endpoint::refusal(system, TransferError::InvalidArgument),
            );
            &&& t.is_complete()
            &&& c.status == Err::<(), TransferError>(UsbResult::Errno(e).transfer_error())
            &&& c.buffer == (BufferModel { data: t.result_data(), ..buffer })
        }),
{
    errno::law_numbers_stand_for_conditions(n, n.inval);
}

} // verus!
