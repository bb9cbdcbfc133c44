//! Transfers through IOKit.

use vstd::prelude::*;

use crate::transfer::{Buffer, BufferModel, Completion, Direction};

use super::{status_to_transfer_result, IoReturn};

verus! {

/// What is known of a transfer.
#[verifier::ext_equal]
pub struct TransferModel {
    /// What is in the memory of the buffer
    pub memory: Seq<u8>,
    pub capacity: nat,
    pub requested_len: nat,
    pub actual_len: nat,
    pub status: IoReturn,
}

/// The number of bytes that a transfer asks to send or receive.
pub open spec fn transfer_len(direction: Direction, buffer: BufferModel) -> nat {
    match direction {
        Direction::Out => buffer.data.len(),
        Direction::In => buffer.requested_len,
    }
}

impl TransferModel {
    /// A transfer without a buffer.
    pub open spec fn empty(status: IoReturn) -> TransferModel {
        TransferModel { memory: seq![], capacity: 0, requested_len: 0, actual_len: 0, status }
    }

    /// The transfer with a buffer.
    pub open spec fn with_buffer(self, buffer: BufferModel, direction: Direction) -> TransferModel {
        TransferModel {
            memory: buffer.data,
            capacity: buffer.capacity,
            requested_len: transfer_len(direction, buffer),
            actual_len: 0,
            status: self.status,
        }
    }

    /// The number of bytes that are in the buffer once the transfer is over.
    pub open spec fn result_len(self, direction: Direction) -> nat {
        match direction {
            Direction::Out => self.requested_len,
            Direction::In => self.actual_len,
        }
    }

    /// Whether the memory and the lengths are what a transfer in a direction can have come to.
    pub open spec fn is_complete(self, direction: Direction) -> bool {
        &&& self.requested_len <= self.capacity
        &&& self.result_len(direction) <= self.memory.len()
        &&& self.result_len(direction) <= self.capacity
    }
}

/// A transfer.
#[derive(Debug)]
pub struct TransferData {
    memory: Vec<u8>,
    capacity: u32,
    requested_len: u32,
    actual_len: u32,
    status: IoReturn,
}

impl View for TransferData {
    type V = TransferModel;

    closed spec fn view(&self) -> TransferModel {
        TransferModel {
            memory: self.memory@,
            capacity: self.capacity as nat,
            requested_len: self.requested_len as nat,
            actual_len: self.actual_len as nat,
            status: self.status,
        }
    }
}

impl TransferData {
    /// A transfer without a buffer. The status is that of success.
    pub fn new(success: IoReturn) -> (r: TransferData)
        ensures
            r@ == TransferModel::empty(success),
            r@.memory.len() == 0 && r@.capacity == 0 && r@.requested_len == 0 && r@.actual_len == 0,
            r@.status == success,
    {
        let r = TransferData {
            memory: Vec::new(),
            capacity: 0,
            requested_len: 0,
            actual_len: 0,
            status: success,
        };
        assert(r@ =~= TransferModel::empty(success));
        r
    }

    /// Give the transfer a buffer.
    pub fn put_buffer(&mut self, buffer: Buffer, direction: Direction)
        requires
            old(self)@.capacity == 0,
        ensures
            final(self)@ == old(self)@.with_buffer(buffer@, direction),
            final(self)@.memory == buffer@.data,
            final(self)@.capacity == buffer@.capacity,
            direction == Direction::Out ==> final(self)@.requested_len == buffer@.data.len(),
            direction == Direction::In ==> final(self)@.requested_len == buffer@.requested_len,
            final(self)@.actual_len == 0,
            final(self)@.status == old(self)@.status,
    {
        let len: usize = buffer.len();
        let requested_len: usize = buffer.requested_len();
        self.capacity = buffer.capacity() as u32;
        self.actual_len = 0;
        self.requested_len = match direction {
            Direction::Out => len as u32,
            Direction::In => requested_len as u32,
        };
        self.memory = vstd::slice::slice_to_vec(buffer.as_slice());
        assert(self@ =~= old(self)@.with_buffer(buffer@, direction));
    }

    /// Record that the transfer is done: its status, how much was transferred, and what is in
    /// memory now.
    pub fn complete(&mut self, status: IoReturn, actual_len: u32, memory: Vec<u8>)
        ensures
            final(self)@ == (TransferModel {
                memory: memory@,
                actual_len: actual_len as nat,
                status,
                ..old(self)@
            }),
    {
        self.status = status;
        self.actual_len = actual_len;
        self.memory = memory;
    }

    /// Take the result of the transfer, and its buffer with it.
    pub fn take_completion(&mut self, direction: Direction) -> (r: Completion)
        requires
            old(self)@.is_complete(direction),
        ensures
            final(self)@ == TransferModel::empty(old(self)@.status),
            r.status == super::transfer_result_of(old(self)@.status),
            r.actual_len == old(self)@.actual_len,
            r.buffer@ == (BufferModel {
                data: old(self)@.memory.take(old(self)@.result_len(direction) as int),
                requested_len: old(self)@.requested_len,
                capacity: old(self)@.capacity,
            }),
            direction == Direction::Out ==> r.buffer@.data == old(self)@.memory.take(
                old(self)@.requested_len as int,
            ),
            direction == Direction::In ==> r.buffer@.data == old(self)@.memory.take(
                old(self)@.actual_len as int,
            ),
            final(self)@.memory.len() == 0,
            final(self)@.capacity == 0 && final(self)@.requested_len == 0
                && final(self)@.actual_len == 0,
            final(self)@.status == old(self)@.status,
    {
        let status = status_to_transfer_result(self.status);
        let mut memory: Vec<u8> = Vec::new();
        std::mem::swap(&mut memory, &mut self.memory);
        let capacity: u32 = self.capacity;
        let len: u32 = match direction {
            Direction::Out => self.requested_len,
            Direction::In => self.actual_len,
        };
        let requested_len: u32 = self.requested_len;
        let actual_len: usize = self.actual_len as usize;
        self.capacity = 0;
        self.requested_len = 0;
        self.actual_len = 0;
        memory.truncate(len as usize);
        let buffer = Buffer::from_parts(memory, requested_len, capacity);
        assert(buffer@ =~= (BufferModel {
            data: old(self)@.memory.take(old(self)@.result_len(direction) as int),
            requested_len: old(self)@.requested_len,
            capacity: old(self)@.capacity,
        }));
        assert(self@ =~= TransferModel::empty(old(self)@.status));
        Completion { status, actual_len, buffer }
    }
}

/// A transfer is over if it asked for no more than there is room for, and what was received, or is to be
/// handed back as sent, is in the memory and no more than there is room for.
pub proof fn law_complete_transfer_fits(t: TransferModel)
    ensures
        t.is_complete(Direction::In) <==> t.requested_len <= t.capacity && t.actual_len
            <= t.memory.len() && t.actual_len <= t.capacity,
        t.is_complete(Direction::Out) <==> t.requested_len <= t.capacity && t.requested_len
            <= t.memory.len(),
{
}

/// A buffer that goes into a transfer comes out again with the transfer's result: as large as
/// before, and, if it was sent, with the same data.
pub proof fn law_buffer_comes_back(t: TransferModel, buffer: BufferModel, direction: Direction)
    ensures
        t.with_buffer(buffer, direction).capacity == buffer.capacity,
        direction == Direction::Out ==> t.with_buffer(buffer, direction).memory.take(
            t.with_buffer(buffer, direction).result_len(direction) as int,
        ) == buffer.data,
        direction == Direction::In ==> t.with_buffer(buffer, direction).requested_len
            == buffer.requested_len,
{
    assert(buffer.data.take(buffer.data.len() as int) =~= buffer.data);
}

} // verus!
