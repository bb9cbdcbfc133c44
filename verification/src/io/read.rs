//! Reading from an IN endpoint.

use std::time::Duration;

use vstd::prelude::*;

use crate::endpoint::{Endpoint, EndpointModel, Poll, SlotModel};
use crate::transfer::{Buffer, BufferModel, Completion, CompletionModel, TransferError};

use super::IoError;

verus! {

/// What is known of the buffer that is being read.
#[verifier::ext_equal]
pub struct ReadModel {
    pub pos: nat,
    pub buf: BufferModel,
    pub status: Result<(), TransferError>,
}

impl ReadModel {
    /// The error that comes after the data; cancellation is none.
    pub open spec fn error(self) -> Option<TransferError> {
        match self.status {
            Err(e) => if e != TransferError::Cancelled {
                Some(e)
            } else {
                None
            },
            Ok(_) => None,
        }
    }

    /// Whether there is data left, or an error.
    pub open spec fn has_remaining(self) -> bool {
        self.pos < self.buf.data.len() || self.error() is Some
    }

    /// Whether there is data left, or an error, or the end of a short packet.
    pub open spec fn has_remaining_or_short_end(self) -> bool {
        self.pos < self.buf.requested_len || self.error() is Some
    }

    /// The data that is left.
    pub open spec fn rest(self) -> Seq<u8> {
        if self.pos <= self.buf.data.len() {
            self.buf.data.skip(self.pos as int)
        } else {
            seq![]
        }
    }

    /// The position is inside the data, or behind everything once the end of a short packet was
    /// consumed, which there is only without an error.
    pub open spec fn wf(self) -> bool {
        self.pos <= self.buf.data.len() || (self.pos == usize::MAX && self.error() is None
            && self.buf.requested_len <= usize::MAX)
    }
}

/// The buffer that is being read: data that was received, and how far it was consumed.
#[derive(Debug)]
pub struct ReadBuffer {
    pos: usize,
    buf: Buffer,
    status: Result<(), TransferError>,
}

impl View for ReadBuffer {
    type V = ReadModel;

    closed spec fn view(&self) -> ReadModel {
        ReadModel { pos: self.pos as nat, buf: self.buf@, status: self.status }
    }
}

impl ReadBuffer {
    fn new(c: Completion) -> (r: ReadBuffer)
        ensures
            r@ == just_completed(c@),
    {
        ReadBuffer { pos: 0, buf: c.buffer, status: c.status }
    }

    fn error(&self) -> (r: Option<TransferError>)
        ensures
            r == self@.error(),
    {
        match self.status {
            Err(e) => if e != TransferError::Cancelled {
                Some(e)
            } else {
                None
            },
            Ok(_) => None,
        }
    }

    fn has_remaining(&self) -> (r: bool)
        ensures
            r == self@.has_remaining(),
    {
        self.pos < self.buf.len() || self.error().is_some()
    }

    fn has_remaining_or_short_end(&self) -> (r: bool)
        ensures
            r == self@.has_remaining_or_short_end(),
    {
        self.pos < self.buf.requested_len() || self.error().is_some()
    }

    fn clear_short_packet(&mut self)
        ensures
            final(self)@ == (ReadModel { pos: usize::MAX as nat, ..old(self)@ }),
            final(self)@.buf.requested_len <= usize::MAX,
    {
        let _requested_len: usize = self.buf.requested_len();
        self.pos = usize::MAX;
    }

    fn remaining(&self) -> (r: Result<&[u8], IoError>)
        requires
            self@.pos <= self@.buf.data.len(),
        ensures
            match r {
                Ok(data) => data@ == self@.rest() && (data@.len() > 0 || self@.error() is None),
                Err(e) => self@.rest().len() == 0 && self@.error() is Some && e
                    == IoError::Transfer(self@.error()->0),
            },
    {
        let all = self.buf.as_slice();
        let rest = vstd::slice::slice_subrange(all, self.pos, all.len());
        assert(rest@ =~= self@.rest());
        match (rest.len(), self.error()) {
            (0, Some(e)) => Err(IoError::Transfer(e)),
            _ => Ok(rest),
        }
    }

    fn consume(&mut self, len: usize)
        requires
            len <= old(self)@.rest().len(),
        ensures
            final(self)@ == (ReadModel { pos: old(self)@.pos + len as nat, ..old(self)@ }),
    {
        let total: usize = self.buf.len();
        assert(len > 0 ==> self.pos + len <= total);
        if len > 0 {
            self.pos = self.pos + len;
        }
    }
}

/// What is known of a reader.
#[verifier::ext_equal]
pub struct ReaderModel {
    pub endpoint: EndpointModel,
    pub reading: Option<ReadModel>,
    pub num_transfers: nat,
    pub transfer_size: nat,
    pub read_timeout: Option<Duration>,
}

/// The state of a buffer right after its transfer completed.
pub open spec fn just_completed(c: CompletionModel) -> ReadModel {
    ReadModel { pos: 0, buf: c.buffer, status: c.status }
}

/// The number of transfers at the head of a queue that are done.
pub open spec fn leading_done(queue: Seq<SlotModel>) -> nat
    decreases queue.len(),
{
    if queue.len() > 0 && queue[0] is Done {
        1 + leading_done(queue.drop_first())
    } else {
        0
    }
}

/// The data of the transfers at the head of a queue that are done.
pub open spec fn leading_data(queue: Seq<SlotModel>) -> Seq<u8>
    decreases queue.len(),
{
    if queue.len() > 0 && queue[0] is Done {
        queue[0]->Done_0.buffer.data + leading_data(queue.drop_first())
    } else {
        seq![]
    }
}

/// A queue with as many empty buffers submitted as it is short of `count` transfers.
pub open spec fn topped_up(queue: Seq<SlotModel>, count: nat, size: nat) -> Seq<SlotModel> {
    if queue.len() < count {
        queue + Seq::new(
            (count - queue.len()) as nat,
            |i: int| SlotModel::Queued(BufferModel::empty(size)),
        )
    } else {
        queue
    }
}

impl ReaderModel {
    /// What every operation keeps.
    pub open spec fn wf(self) -> bool {
        &&& self.transfer_size <= u32::MAX
        &&& self.reading matches Some(r) ==> r.wf()
    }

    /// The same reader with another queue.
    pub open spec fn with_queue(self, queue: Seq<SlotModel>) -> ReaderModel {
        ReaderModel { endpoint: EndpointModel { queue, ..self.endpoint }, ..self }
    }

    /// Whether `fill_buf` has something to return: data or an error, or, when short packets are
    /// observed, the end of one.
    pub open spec fn has_data(self, until_short: bool) -> bool {
        self.reading matches Some(r) && if until_short {
            r.has_remaining_or_short_end()
        } else {
            r.has_remaining()
        }
    }

    /// The reader with the number of transfers submitted that it is set to. The buffer that was
    /// read last is used for the first of them.
    pub open spec fn refilled(self) -> ReaderModel {
        let queue = self.endpoint.queue;
        if queue.len() < self.num_transfers {
            let reused = match self.reading {
                Some(r) => queue.push(SlotModel::Queued(r.buf)),
                None => queue,
            };
            ReaderModel {
                reading: None,
                ..self.with_queue(topped_up(reused, self.num_transfers, self.transfer_size))
            }
        } else {
            self
        }
    }

    /// The reader after it has begun to read the next completed transfer, and whether it has:
    /// there is nothing to wait for if no transfer is pending.
    pub open spec fn polled(self) -> (ReaderModel, Poll<bool>) {
        let m = self.refilled();
        let queue = m.endpoint.queue;
        if queue.len() == 0 {
            (m, Poll::Ready(false))
        } else if queue[0] is Done {
            (
                ReaderModel {
                    reading: Some(just_completed(queue[0]->Done_0)),
                    ..m.with_queue(queue.drop_first())
                },
                Poll::Ready(true),
            )
        } else {
            (m, Poll::Pending)
        }
    }

    /// The reader after it has gone through the completed transfers up to one that has something
    /// to return, and whether it has found one.
    pub open spec fn filled(self, until_short: bool) -> (ReaderModel, Poll<bool>)
        decreases leading_done(self.endpoint.queue),
    {
        if self.has_data(until_short) {
            (self, Poll::Ready(true))
        } else if self.polled().1 == Poll::Ready(true) {
            proof {
                lemma_refill_keeps_done(self);
            }
            self.polled().0.filled(until_short)
        } else {
            self.polled()
        }
    }

    /// Whether no transfer has received more than was asked for.
    pub open spec fn no_overrun(self) -> bool {
        &&& self.reading matches Some(r) ==> within_request(r.buf)
        &&& forall|i: int|
            0 <= i < self.endpoint.queue.len() && (#[trigger] self.endpoint.queue[i]) is Done
                ==> within_request(self.endpoint.queue[i]->Done_0.buffer)
    }

    /// The data that was received and not consumed yet.
    pub open spec fn unread(self) -> Seq<u8> {
        match self.reading {
            Some(r) => r.rest() + leading_data(self.endpoint.queue),
            None => leading_data(self.endpoint.queue),
        }
    }
}

/// Whether a buffer has no more data than was asked for.
pub open spec fn within_request(b: BufferModel) -> bool {
    b.data.len() <= b.requested_len
}

/// Submitting buffers changes nothing about the transfers that are done.
pub proof fn lemma_refill_keeps_done(m: ReaderModel)
    ensures
        leading_done(m.refilled().endpoint.queue) == leading_done(m.endpoint.queue),
        leading_data(m.refilled().endpoint.queue) == leading_data(m.endpoint.queue),
        m.refilled().endpoint.queue.len() > 0 && m.refilled().endpoint.queue[0] is Done
            ==> m.endpoint.queue.len() > 0 && m.endpoint.queue[0] is Done,
{
    let queue = m.endpoint.queue;
    let after = m.refilled().endpoint.queue;
    if queue.len() < m.num_transfers {
        let more = after.skip(queue.len() as int);
        assert(after =~= queue + more);
        assert(more.len() > 0 ==> !(more[0] is Done));
        lemma_leading_of_appended(queue, more);
    }
}

proof fn lemma_leading_of_appended(queue: Seq<SlotModel>, more: Seq<SlotModel>)
    requires
        more.len() > 0 ==> !(more[0] is Done),
    ensures
        leading_done(queue + more) == leading_done(queue),
        leading_data(queue + more) == leading_data(queue),
    decreases queue.len(),
{
    if queue.len() == 0 {
        assert(queue + more =~= more);
    } else {
        assert((queue + more).drop_first() =~= queue.drop_first() + more);
        lemma_leading_of_appended(queue.drop_first(), more);
    }
}

/// Filling the buffer loses and makes up no data: what was received and not consumed is the same
/// as before, in the same order. This holds of reading up to the end of a short packet too, as long
/// as no transfer received more than was asked for.
pub proof fn law_filling_keeps_data(m: ReaderModel, until_short: bool)
    requires
        m.wf(),
        until_short ==> m.no_overrun(),
    ensures
        m.filled(until_short).0.unread() == m.unread(),
        m.filled(until_short).0.wf(),
    decreases leading_done(m.endpoint.queue),
{
    if !m.has_data(until_short) {
        lemma_refill_keeps_done(m);
        let after = m.polled().0;
        if let Some(r) = m.reading {
            assert(r.rest() =~= seq![]);
            assert(r.rest() + leading_data(m.endpoint.queue) =~= leading_data(m.endpoint.queue));
        }
        if m.polled().1 == Poll::Ready(true) {
            let queue = m.refilled().endpoint.queue;
            let r = just_completed(queue[0]->Done_0);
            assert(r.rest() =~= r.buf.data);
            assert forall|i: int|
                until_short && 0 <= i < after.endpoint.queue.len() && (
                #[trigger] after.endpoint.queue[i]) is Done implies within_request(
                after.endpoint.queue[i]->Done_0.buffer,
            ) by {
                assert(after.endpoint.queue[i] == queue[i + 1]);
                assert(i + 1 < m.endpoint.queue.len() && queue[i + 1] == m.endpoint.queue[i + 1]);
            }
            law_filling_keeps_data(after, until_short);
        } else if let Some(r) = m.refilled().reading {
            assert(r.rest() + leading_data(m.refilled().endpoint.queue) =~= leading_data(
                m.endpoint.queue,
            ));
        }
    }
}

/// With the number of transfers set to zero nothing is submitted any more, and once all transfers
/// are done and their data consumed, reading ends.
pub proof fn law_no_transfers_means_end(m: ReaderModel, until_short: bool)
    requires
        m.num_transfers == 0,
        m.endpoint.queue.len() == 0,
        !m.has_data(until_short),
    ensures
        m.filled(until_short) == (m, Poll::Ready(false)),
{
}

/// Whether no transfer that is done has failed, other than by being cancelled, and none is pending.
pub open spec fn ended_well(queue: Seq<SlotModel>) -> bool {
    forall|i: int|
        0 <= i < queue.len() ==> (#[trigger] queue[i]) is Done && just_completed(
            queue[i]->Done_0,
        ).error() is None
}

/// After all transfers were cancelled and are done, the data that was received before can be read,
/// without waiting and in order, and then reading ends. Being cancelled is no error.
pub proof fn law_cancelled_reading_ends(m: ReaderModel)
    requires
        m.wf(),
        m.num_transfers == 0,
        m.reading matches Some(r) ==> r.error() is None,
        ended_well(m.endpoint.queue),
    ensures
        m.filled(false).1 == Poll::Ready(m.unread().len() > 0),
        m.unread().len() > 0 ==> {
            let r = m.filled(false).0.reading->0;
            &&& 0 < r.rest().len() <= m.unread().len()
            &&& r.rest() == m.unread().take(r.rest().len() as int)
            &&& r.error() is None
        },
    decreases leading_done(m.endpoint.queue),
{
    let queue = m.endpoint.queue;
    if m.has_data(false) {
        let rest = m.reading->0.rest();
        assert(m.unread().take(rest.len() as int) =~= rest);
    } else {
        if let Some(r) = m.reading {
            assert(r.rest() =~= seq![]);
        }
        assert(m.unread() =~= leading_data(queue));
        if queue.len() > 0 {
            let after = m.polled().0;
            let next = queue.drop_first();
            assert(queue[0] is Done);
            assert forall|i: int| 0 <= i < next.len() implies (#[trigger] next[i]) is Done
                && just_completed(next[i]->Done_0).error() is None by {
                assert(next[i] == queue[i + 1]);
            }
            assert(just_completed(queue[0]->Done_0).rest() =~= queue[0]->Done_0.buffer.data);
            assert(after.unread() =~= m.unread());
            law_cancelled_reading_ends(after);
        }
    }
}

/// What was received and not consumed is what is left of the buffer that is being read, followed by the
/// data of the transfers at the head of the queue that are done, oldest first.
pub proof fn law_unread_is_received(m: ReaderModel, c: CompletionModel, queue: Seq<SlotModel>)
    ensures
        m.reading is None && m.endpoint.queue.len() == 0 ==> m.unread() == Seq::<u8>::empty(),
        m.reading is None && m.endpoint.queue.len() > 0 && !(m.endpoint.queue[0] is Done)
            ==> m.unread() == Seq::<u8>::empty(),
        m.reading is None && m.endpoint.queue == seq![SlotModel::Done(c)] + queue ==> m.unread()
            == c.buffer.data + (ReaderModel {
            endpoint: EndpointModel { queue, ..m.endpoint },
            ..m
        }).unread(),
        m.reading matches Some(r) ==> (r.pos <= r.buf.data.len() ==> m.unread()
            == r.buf.data.subrange(r.pos as int, r.buf.data.len() as int) + (ReaderModel {
            reading: None,
            ..m
        }).unread()),
{
    if m.endpoint.queue == seq![SlotModel::Done(c)] + queue {
        assert(m.endpoint.queue.drop_first() =~= queue);
    }
    if let Some(r) = m.reading {
        if r.pos <= r.buf.data.len() {
            assert(r.rest() =~= r.buf.data.subrange(r.pos as int, r.buf.data.len() as int));
        }
    }
}

/// Submitting transfers for reading leaves those in the queue as they are and puts empty buffers of the
/// transfer size behind them, until there are as many as are asked for. The buffer that was read last
/// is the first that is used for that.
pub proof fn law_refilling_appends_buffers(m: ReaderModel, count: nat)
    ensures
        ({
            let queue = m.endpoint.queue;
            let more = topped_up(queue, count, m.transfer_size);
            &&& more.len() == if queue.len() < count {
                count
            } else {
                queue.len()
            }
            &&& more.take(queue.len() as int) == queue
            &&& forall|i: int|
                queue.len() <= i < more.len() ==> #[trigger] more[i] == SlotModel::Queued(
                    BufferModel {
                        data: seq![],
                        requested_len: m.transfer_size,
                        capacity: m.transfer_size,
                    },
                )
        }),
        m.endpoint.queue.len() >= m.num_transfers ==> m.refilled() == m,
        m.endpoint.queue.len() < m.num_transfers ==> {
            let queue = m.endpoint.queue;
            let after = m.refilled();
            &&& after.reading is None
            &&& after.endpoint.queue.len() == m.num_transfers
            &&& after.endpoint.queue.take(queue.len() as int) == queue
            &&& m.reading matches Some(r) ==> after.endpoint.queue[queue.len() as int]
                == SlotModel::Queued(r.buf)
            &&& forall|i: int|
                queue.len() < i < m.num_transfers || (m.reading is None && i == queue.len())
                    ==> #[trigger] after.endpoint.queue[i] == SlotModel::Queued(
                    BufferModel {
                        data: seq![],
                        requested_len: m.transfer_size,
                        capacity: m.transfer_size,
                    },
                )
            &&& after.num_transfers == m.num_transfers
            &&& after.transfer_size == m.transfer_size
        },
{
    let queue = m.endpoint.queue;
    let more = topped_up(queue, count, m.transfer_size);
    assert(more.take(queue.len() as int) =~= queue);
    if queue.len() < m.num_transfers {
        assert(m.refilled().endpoint.queue.take(queue.len() as int) =~= queue);
    }
}

/// Filling the buffer hands out what is left of it, or its error. When nothing is left, the oldest
/// transfer is read next, if it is done; if it is not, it is waited for; and if there is none, reading
/// has ended. Reading up to the end of a short packet, a transfer that received less than was asked
/// for is not done with before its end was consumed.
pub proof fn law_filling_takes_oldest(m: ReaderModel, until_short: bool)
    ensures
        ({
            let found = m.reading matches Some(r) && ((r.status is Err && r.status != Err::<
                (),
                TransferError,
            >(TransferError::Cancelled)) || r.pos < if until_short {
                r.buf.requested_len
            } else {
                r.buf.data.len()
            });
            let next = m.refilled();
            let queue = next.endpoint.queue;
            if found {
                m.filled(until_short) == (m, Poll::Ready(true))
            } else if queue.len() == 0 {
                m.filled(until_short) == (next, Poll::Ready(false))
            } else {
                match queue[0] {
                    SlotModel::Done(c) => m.filled(until_short) == (ReaderModel {
                        reading: Some(ReadModel { pos: 0, buf: c.buffer, status: c.status }),
                        endpoint: EndpointModel { queue: queue.skip(1), ..next.endpoint },
                        ..next
                    }).filled(until_short),
                    _ => m.filled(until_short) == (next, Poll::<bool>::Pending),
                }
            }
        }),
{
    lemma_refill_keeps_done(m);
    let queue = m.refilled().endpoint.queue;
    if queue.len() > 0 && queue[0] is Done {
        assert(queue.drop_first() =~= queue.skip(1));
        let c = queue[0]->Done_0;
        let next = m.refilled();
        assert(m.polled().0 == (ReaderModel {
            reading: Some(ReadModel { pos: 0, buf: c.buffer, status: c.status }),
            endpoint: EndpointModel { queue: queue.skip(1), ..next.endpoint },
            ..next
        }));
    }
}

/// Wrapper for a Bulk or Interrupt IN [`Endpoint`] that manages transfers to provide a
/// higher-level buffered API.
///
/// By default, this type ignores USB packet lengths and boundaries. For protocols that use short or
/// zero-length packets as delimiters, you can use the
/// [`until_short_packet()`](Self::until_short_packet) method to get an
/// [`EndpointReadUntilShortPacket`] adapter that observes these delimiters.
#[derive(Debug)]
pub struct EndpointRead {
    endpoint: Endpoint,
    reading: Option<ReadBuffer>,
    num_transfers: usize,
    transfer_size: usize,
    read_timeout: Option<Duration>,
}

impl View for EndpointRead {
    type V = ReaderModel;

    closed spec fn view(&self) -> ReaderModel {
        ReaderModel {
            endpoint: self.endpoint@,
            reading: match self.reading {
                Some(r) => Some(r@),
                None => None,
            },
            num_transfers: self.num_transfers as nat,
            transfer_size: self.transfer_size as nat,
            read_timeout: self.read_timeout,
        }
    }
}

impl EndpointRead {
    /// Create a new `EndpointRead` wrapping the given endpoint.
    ///
    /// The `transfer_size` parameter is the size of the buffer passed to the OS for each transfer.
    /// It will be rounded up to the next multiple of the endpoint's max packet size.
    pub fn new(endpoint: Endpoint, transfer_size: usize) -> (r: EndpointRead)
        requires
            endpoint@.max_packet_size > 0,
            super::rounded_up(transfer_size as nat, endpoint@.max_packet_size) <= u32::MAX,
        ensures
            r@ == (ReaderModel {
                endpoint: endpoint@,
                reading: None,
                num_transfers: 1,
                transfer_size: super::rounded_up(transfer_size as nat, endpoint@.max_packet_size),
                read_timeout: None,
            }),
            r@.wf(),
    {
        let packet_size: usize = endpoint.max_packet_size();
        let transfer_size: usize = super::round_up(transfer_size, packet_size);
        EndpointRead { endpoint, reading: None, num_transfers: 1, transfer_size, read_timeout: None }
    }

    fn top_up(&mut self, count: usize)
        requires
            old(self)@.wf(),
        ensures
            final(self)@ == old(self)@.with_queue(
                topped_up(old(self)@.endpoint.queue, count as nat, old(self)@.transfer_size),
            ),
    {
        let ghost start = self@;
        proof {
            assert(start.with_queue(start.endpoint.queue) =~= start);
        }
        while self.endpoint.pending() < count
            invariant
                start.wf(),
                start.endpoint.queue.len() <= self@.endpoint.queue.len(),
                self@ == start.with_queue(
                    topped_up(
                        start.endpoint.queue,
                        self@.endpoint.queue.len(),
                        start.transfer_size,
                    ),
                ),
                self@.endpoint.queue.len() <= count || self@ == start,
            decreases count - self@.endpoint.queue.len(),
        {
            let ghost before = self@.endpoint.queue;
            let buf = self.endpoint.allocate(self.transfer_size);
            self.endpoint.submit(buf);
            proof {
                let after = self@.endpoint.queue;
                assert(after =~= topped_up(
                    start.endpoint.queue,
                    after.len(),
                    start.transfer_size,
                ));
                assert(self@ =~= start.with_queue(after));
            }
        }
    }

    /// Set the number of concurrent transfers.
    ///
    /// A value of 1 (default) means that transfers will only be submitted when calling `read()` or
    /// `fill_buf()` and the buffer is empty. To maximize throughput, a value of 2 or more is
    /// recommended for applications that stream data continuously so that the host controller can
    /// continue to receive data while the application processes the data from a completed
    /// transfer.
    ///
    /// A value of 0 means no further transfers will be submitted. Existing transfers will complete
    /// normally, and subsequent calls to `read()` and `fill_buf()` will return zero bytes (EOF).
    ///
    /// This submits more transfers when increasing the number, but does not
    /// [cancel transfers](Self::cancel_all) when decreasing it.
    pub fn set_num_transfers(&mut self, num_transfers: usize)
        requires
            old(self)@.wf(),
        ensures
            final(self)@ == (ReaderModel {
                num_transfers: num_transfers as nat,
                ..old(self)@.with_queue(
                    topped_up(
                        old(self)@.endpoint.queue,
                        if num_transfers == 0 {
                            0
                        } else {
                            (num_transfers - 1) as nat
                        },
                        old(self)@.transfer_size,
                    ),
                )
            }),
            final(self)@.wf(),
    {
        self.num_transfers = num_transfers;

        // Leave the last transfer to be submitted by `read` such that
        // a value of `1` only has transfers pending within `read` calls.
        self.top_up(num_transfers.saturating_sub(1));
    }

    /// Set the number of concurrent transfers.
    ///
    /// See [Self::set_num_transfers] (this version is for method chaining).
    pub fn with_num_transfers(self, num_transfers: usize) -> (r: EndpointRead)
        requires
            self@.wf(),
        ensures
            r@ == (ReaderModel {
                num_transfers: num_transfers as nat,
                ..self@.with_queue(
                    topped_up(
                        self@.endpoint.queue,
                        if num_transfers == 0 {
                            0
                        } else {
                            (num_transfers - 1) as nat
                        },
                        self@.transfer_size,
                    ),
                )
            }),
            r@.wf(),
    {
        let mut r = self;
        r.set_num_transfers(num_transfers);
        r
    }

    /// Set the timeout for waiting for a transfer in the blocking `read` APIs.
    ///
    /// When a timeout occurs, the call fails but the transfer is not cancelled and may complete
    /// later if the read is retried.
    pub fn set_read_timeout(&mut self, timeout: Duration)
        ensures
            final(self)@ == (ReaderModel { read_timeout: Some(timeout), ..old(self)@ }),
    {
        self.read_timeout = Some(timeout);
    }

    /// Set the timeout for an individual transfer for the blocking `read` APIs.
    ///
    /// See [Self::set_read_timeout] -- this is for method chaining with `EndpointRead::new()`.
    pub fn with_read_timeout(self, timeout: Duration) -> (r: EndpointRead)
        ensures
            r@ == (ReaderModel { read_timeout: Some(timeout), ..self@ }),
    {
        let mut r = self;
        r.set_read_timeout(timeout);
        r
    }

    /// The timeout for waiting for a transfer; none if there is no limit.
    pub fn read_timeout(&self) -> (r: Option<Duration>)
        ensures
            r == self@.read_timeout,
    {
        self.read_timeout
    }

    /// Cancel all pending transfers.
    ///
    /// This sets [`num_transfers`](Self::set_num_transfers) to 0, so no further transfers will be
    /// submitted. Any data buffered before the transfers are cancelled can be read, and then the
    /// read methods will return 0 bytes (EOF).
    ///
    /// Call [`set_num_transfers`](Self::set_num_transfers) with a non-zero value to resume
    /// receiving data.
    ///
    /// The result names the transfers that are to be cancelled with the operating system, in the
    /// order in which that is to be done.
    pub fn cancel_all(&mut self) -> (r: Vec<usize>)
        ensures
            crate::endpoint::is_cancel_order(old(self)@.endpoint.queue, r@),
            final(self)@ == (ReaderModel {
                num_transfers: 0,
                ..old(self)@.with_queue(
                    old(self)@.endpoint.queue.map_values(
                        |s: SlotModel|
                            crate::endpoint::cancelled(
                                old(self)@.endpoint.system,
                                old(self)@.endpoint.address,
                                s,
                            ),
                    ),
                )
            }),
    {
        self.num_transfers = 0;
        self.endpoint.cancel_all()
    }

    /// Destroy this `EndpointRead` and return the underlying [`Endpoint`].
    ///
    /// Any pending transfers are not cancelled.
    pub fn into_inner(self) -> (r: Endpoint)
        ensures
            r@ == self@.endpoint,
    {
        self.endpoint
    }

    fn has_data(&self) -> (r: bool)
        ensures
            r == self@.has_data(false),
    {
        match &self.reading {
            Some(r) => r.has_remaining(),
            None => false,
        }
    }

    fn has_data_or_short_end(&self) -> (r: bool)
        ensures
            r == self@.has_data(true),
    {
        match &self.reading {
            Some(r) => r.has_remaining_or_short_end(),
            None => false,
        }
    }

    fn resubmit(&mut self)
        ensures
            final(self)@ == (ReaderModel {
                reading: None,
                ..old(self)@.with_queue(
                    match old(self)@.reading {
                        Some(r) => old(self)@.endpoint.queue.push(SlotModel::Queued(r.buf)),
                        None => old(self)@.endpoint.queue,
                    },
                )
            }),
    {
        if let Some(c) = self.reading.take() {
            self.endpoint.submit(c.buf);
        }
    }

    /// Submit as many transfers as the reader is set to; whether there are any to wait for.
    pub fn start_read(&mut self) -> (r: bool)
        requires
            old(self)@.wf(),
        ensures
            final(self)@ == old(self)@.refilled(),
            final(self)@.wf(),
            r == (final(self)@.endpoint.queue.len() > 0),
    {
        if self.endpoint.pending() < self.num_transfers {
            // Re-use the last completed buffer if available
            self.resubmit();
            // Allocate more buffers for any remaining transfers
            self.top_up(self.num_transfers);
        }

        // If num_transfers is 0 and all transfers are complete
        self.endpoint.pending() > 0
    }

    fn poll(&mut self) -> (r: Poll<bool>)
        requires
            old(self)@.wf(),
        ensures
            (final(self)@, r) == old(self)@.polled(),
            final(self)@.wf(),
    {
        if self.start_read() {
            match self.endpoint.poll_next_complete() {
                Poll::Ready(c) => {
                    self.reading = Some(ReadBuffer::new(c));
                    Poll::Ready(true)
                },
                Poll::Pending => Poll::Pending,
            }
        } else {
            Poll::Ready(false)
        }
    }
}

/// What `fill_buf` hands out of the buffer that is being read: the data that is left, or the error
/// that comes after it.
pub open spec fn hands_out(m: ReadModel, r: Result<&[u8], IoError>) -> bool {
    match r {
        Ok(data) => data@ == m.rest() && (data@.len() > 0 || m.error() is None),
        Err(e) => m.rest().len() == 0 && m.error() is Some && e == IoError::Transfer(m.error()->0),
    }
}

/// The number of bytes that can be copied from one slice to another.
pub open spec fn copied(dest: Seq<u8>, src: Seq<u8>) -> nat {
    if dest.len() < src.len() {
        dest.len()
    } else {
        src.len()
    }
}

/// Copy as many bytes as fit.
fn copy_min(dest: &mut [u8], src: &[u8]) -> (len: usize)
    ensures
        len == copied(old(dest)@, src@),
        final(dest)@ == src@.take(len as int) + old(dest)@.skip(len as int),
{
    let len: usize = if dest.len() < src.len() {
        dest.len()
    } else {
        src.len()
    };
    let mut i: usize = 0;
    assert(dest@ =~= src@.take(0) + old(dest)@.skip(0));
    while i < len
        invariant
            i <= len,
            len <= src@.len(),
            len <= old(dest)@.len(),
            dest@.len() == old(dest)@.len(),
            dest@ == src@.take(i as int) + old(dest)@.skip(i as int),
        decreases len - i,
    {
        let ghost before = dest@;
        dest[i] = src[i];
        i = i + 1;
        assert(dest@ =~= src@.take(i as int) + old(dest)@.skip(i as int));
    }
    len
}

impl EndpointRead {
    /// Go through the completed transfers up to one that has something to return.
    fn fill(&mut self, until_short: bool) -> (r: Poll<bool>)
        requires
            old(self)@.wf(),
        ensures
            (final(self)@, r) == old(self)@.filled(until_short),
            final(self)@.wf(),
            r == Poll::Ready(true) ==> final(self)@.has_data(until_short),
    {
        loop
            invariant
                self@.wf(),
                self@.filled(until_short) == old(self)@.filled(until_short),
            decreases leading_done(self@.endpoint.queue),
        {
            let found: bool = if until_short {
                self.has_data_or_short_end()
            } else {
                self.has_data()
            };
            if found {
                return Poll::Ready(true);
            }
            proof {
                lemma_refill_keeps_done(self@);
            }
            match self.poll() {
                Poll::Ready(true) => {},
                Poll::Ready(false) => return Poll::Ready(false),
                Poll::Pending => return Poll::Pending,
            }
        }
    }

    fn remaining(&self) -> (r: Result<&[u8], IoError>)
        requires
            self@.reading is Some,
            self@.reading->0.pos <= self@.reading->0.buf.data.len(),
        ensures
            hands_out(self@.reading->0, r),
    {
        match &self.reading {
            Some(r) => r.remaining(),
            None => Err(IoError::UnexpectedEof),
        }
    }

    /// Get the data that was received, reading more if there is none.
    ///
    /// There is none at the end, when no transfer is pending and none is to be submitted. An error
    /// comes out after the data that was received before it.
    pub fn poll_fill_buf(&mut self) -> (r: Poll<Result<&[u8], IoError>>)
        requires
            old(self)@.wf(),
        ensures
            final(self)@ == old(self)@.filled(false).0,
            final(self)@.wf(),
            match old(self)@.filled(false).1 {
                Poll::Pending => r is Pending,
                Poll::Ready(false) => r matches Poll::Ready(Ok(data)) && data@.len() == 0,
                Poll::Ready(true) => r matches Poll::Ready(x) && hands_out(
                    final(self)@.reading->0,
                    x,
                ),
            },
    {
        match self.fill(false) {
            Poll::Pending => Poll::Pending,
            Poll::Ready(false) => Poll::Ready(Ok(&[])),
            Poll::Ready(true) => Poll::Ready(self.remaining()),
        }
    }
}

impl ReaderModel {
    /// How much of the buffer that is being read can be consumed.
    pub open spec fn available(self) -> nat {
        match self.reading {
            Some(r) => r.rest().len(),
            None => 0,
        }
    }

    /// The reader after `len` bytes were consumed.
    pub open spec fn consumed(self, len: nat) -> ReaderModel {
        ReaderModel {
            reading: match self.reading {
                Some(r) => Some(ReadModel { pos: r.pos + len, ..r }),
                None => None,
            },
            ..self
        }
    }
}

/// Consuming takes bytes off the front of the data that was received, and nothing else.
pub proof fn law_consuming_takes_data(m: ReaderModel, len: nat)
    requires
        m.wf(),
        len <= m.available(),
    ensures
        m.consumed(len).unread() == m.unread().skip(len as int),
        m.consumed(len).wf(),
{
    if let Some(r) = m.reading {
        let after = ReadModel { pos: r.pos + len, ..r };
        assert(after.rest() =~= r.rest().skip(len as int));
        assert(m.consumed(len).unread() =~= m.unread().skip(len as int));
    } else {
        assert(m.unread().skip(0) =~= m.unread());
    }
}

/// After a part of the data was consumed, filling the buffer gives exactly the rest of it, and
/// submits nothing. This holds of reading up to the end of a short packet too, as long as no transfer
/// received more than was asked for.
pub proof fn law_rest_comes_after_partial_consume(m: ReaderModel, len: nat, until_short: bool)
    requires
        m.wf(),
        until_short ==> m.no_overrun(),
        len < m.available(),
    ensures
        m.consumed(len).filled(until_short) == (m.consumed(len), Poll::Ready(true)),
        m.consumed(len).endpoint == m.endpoint,
        m.consumed(len).reading->0.rest() == m.reading->0.rest().skip(len as int),
        forall|r: Result<&[u8], IoError>| #[trigger]
            hands_out(m.consumed(len).reading->0, r) ==> (r matches Ok(data) && data@
                == m.reading->0.rest().skip(len as int)),
{
    assert(m.consumed(len).reading->0.rest() =~= m.reading->0.rest().skip(len as int));
}

impl EndpointRead {
    /// Mark bytes that `fill_buf` returned as consumed.
    pub fn consume(&mut self, len: usize)
        requires
            len <= old(self)@.available(),
        ensures
            final(self)@ == old(self)@.consumed(len as nat),
            old(self)@.wf() ==> final(self)@.wf(),
    {
        proof {
            if old(self)@.wf() {
                law_consuming_takes_data(old(self)@, len as nat);
            }
        }
        let mut reading = self.reading.take();
        if let Some(c) = &mut reading {
            c.consume(len);
        }
        self.reading = reading;
    }

    /// Get the data that was received, reading more if there is none. It is an error if there is
    /// none and the time limit for the oldest transfer has passed; that transfer goes on and may
    /// complete later.
    pub fn fill_buf(&mut self, timed_out: bool) -> (r: Poll<Result<&[u8], IoError>>)
        requires
            old(self)@.wf(),
        ensures
            final(self)@ == old(self)@.filled(false).0,
            final(self)@.wf(),
            match old(self)@.filled(false).1 {
                Poll::Pending => if timed_out {
                    r matches Poll::Ready(Err(e)) && e == IoError::TimedOut
                } else {
                    r is Pending
                },
                Poll::Ready(false) => r matches Poll::Ready(Ok(data)) && data@.len() == 0,
                Poll::Ready(true) => r matches Poll::Ready(x) && hands_out(
                    final(self)@.reading->0,
                    x,
                ),
            },
    {
        match self.fill(false) {
            Poll::Pending => if timed_out {
                Poll::Ready(Err(IoError::TimedOut))
            } else {
                Poll::Pending
            },
            Poll::Ready(false) => Poll::Ready(Ok(&[])),
            Poll::Ready(true) => Poll::Ready(self.remaining()),
        }
    }

    /// Copy data that was received into `buf` and consume it; how much that was.
    fn take(&mut self, buf: &mut [u8]) -> (r: Result<usize, IoError>)
        requires
            old(self)@.wf(),
            old(self)@.reading is Some,
            old(self)@.reading->0.pos <= old(self)@.reading->0.buf.data.len(),
        ensures
            took(old(self)@, old(buf)@, final(self)@, final(buf)@, r),
            final(self)@.wf(),
    {
        let len: usize = match self.remaining() {
            Ok(remaining) => copy_min(buf, remaining),
            Err(e) => return Err(e),
        };
        self.consume(len);
        Ok(len)
    }

    /// Read data into `buf`. The number of bytes read is 0 at the end.
    pub fn poll_read(&mut self, buf: &mut [u8]) -> (r: Poll<Result<usize, IoError>>)
        requires
            old(self)@.wf(),
        ensures
            final(self)@.wf(),
            ({
                let (m, ready) = old(self)@.filled(false);
                match ready {
                    Poll::Pending => r is Pending && final(self)@ == m && final(buf)@ == old(buf)@,
                    Poll::Ready(false) => r == Poll::<Result<usize, IoError>>::Ready(Ok(0))
                        && final(self)@ == m && final(buf)@ == old(buf)@,
                    Poll::Ready(true) => r matches Poll::Ready(x) && took(
                        m,
                        old(buf)@,
                        final(self)@,
                        final(buf)@,
                        x,
                    ),
                }
            }),
    {
        match self.fill(false) {
            Poll::Pending => Poll::Pending,
            Poll::Ready(false) => Poll::Ready(Ok(0)),
            Poll::Ready(true) => Poll::Ready(self.take(buf)),
        }
    }

    /// The underlying endpoint, for handing its transfers to the operating system.
    pub fn endpoint_mut(&mut self) -> (r: &mut Endpoint)
        ensures
            r@ == old(self)@.endpoint,
            final(self)@ == (ReaderModel { endpoint: final(r)@, ..old(self)@ }),
    {
        &mut self.endpoint
    }

    /// Get an [`EndpointReadUntilShortPacket`] adapter that will read only until the end of a short
    /// or zero-length packet.
    ///
    /// Some USB protocols use packets shorter than the endpoint's max packet size as a delimiter
    /// marking the end of a message. By default, [`EndpointRead`] ignores packet boundaries, but
    /// this adapter allows you to observe these delimiters.
    pub fn until_short_packet(&mut self) -> (r: EndpointReadUntilShortPacket<'_>)
        ensures
            *r.reader == *old(self),
            *final(self) == *final(r.reader),
    {
        EndpointReadUntilShortPacket { reader: self }
    }
}

/// What is copied out of the buffer that is being read: as much of the data that is left as fits,
/// which is consumed, or the error that comes after it.
pub open spec fn took(
    before: ReaderModel,
    buf_before: Seq<u8>,
    after: ReaderModel,
    buf_after: Seq<u8>,
    r: Result<usize, IoError>,
) -> bool {
    let m = before.reading->0;
    match r {
        Ok(len) => {
            &&& len == copied(buf_before, m.rest())
            &&& m.rest().len() > 0 || m.error() is None
            &&& buf_after == m.rest().take(len as int) + buf_before.skip(len as int)
            &&& after == before.consumed(len as nat)
        },
        Err(e) => {
            &&& m.rest().len() == 0
            &&& m.error() is Some
            &&& e == IoError::Transfer(m.error()->0)
            &&& buf_after == buf_before
            &&& after == before
        },
    }
}

/// What is handed out are the bytes that were received behind those that were consumed. When none are
/// left, it is the error of the transfer, if it has one other than having been cancelled, and else
/// nothing.
pub proof fn law_rest_or_error_is_handed_out(m: ReadModel, r: Result<&[u8], IoError>)
    requires
        m.pos <= m.buf.data.len(),
        hands_out(m, r),
    ensures
        m.pos < m.buf.data.len() ==> (r matches Ok(data) && data@ == m.buf.data.subrange(
            m.pos as int,
            m.buf.data.len() as int,
        )),
        m.pos == m.buf.data.len() ==> match m.status {
            Ok(_) => r matches Ok(data) && data@.len() == 0,
            Err(TransferError::Cancelled) => r matches Ok(data) && data@.len() == 0,
            Err(e) => r == Err::<&[u8], IoError>(IoError::Transfer(e)),
        },
{
    assert(m.rest() =~= m.buf.data.subrange(m.pos as int, m.buf.data.len() as int));
}

/// Reading copies as many bytes as are left of what was received or as there is room for, whichever is
/// less, from where the last read ended, and the next read goes on behind them.
pub proof fn law_reading_copies_in_order(
    before: ReaderModel,
    buf_before: Seq<u8>,
    after: ReaderModel,
    buf_after: Seq<u8>,
    r: Result<usize, IoError>,
)
    requires
        before.reading is Some,
        before.reading->0.pos <= before.reading->0.buf.data.len(),
        took(before, buf_before, after, buf_after, r),
    ensures
        ({
            let m = before.reading->0;
            let left = m.buf.data.len() - m.pos;
            let n = if buf_before.len() < left {
                buf_before.len() as int
            } else {
                left
            };
            if left > 0 || m.status is Ok || m.status == Err::<(), TransferError>(
                TransferError::Cancelled,
            ) {
                &&& r matches Ok(len) && len == n
                &&& buf_after.len() == buf_before.len()
                &&& buf_after.take(n) == m.buf.data.subrange(m.pos as int, m.pos + n)
                &&& buf_after.skip(n) == buf_before.skip(n)
                &&& after.reading matches Some(x) && x.pos == m.pos + n && x.buf == m.buf && x.status
                    == m.status
                &&& after.endpoint == before.endpoint
            } else {
                &&& r matches Err(e) && e == IoError::Transfer(m.status->Err_0)
                &&& buf_after == buf_before
                &&& after == before
            }
        }),
{
    let m = before.reading->0;
    assert(m.rest() =~= m.buf.data.skip(m.pos as int));
    if let Ok(len) = r {
        let n = len as int;
        assert(m.rest().take(n) =~= m.buf.data.subrange(m.pos as int, m.pos + n));
        assert(buf_after.take(n) =~= m.rest().take(n));
        assert(buf_after.skip(n) =~= buf_before.skip(n));
    }
}

/// Adapter for [`EndpointRead`] that ends after a short or zero-length packet.
///
/// This can be obtained from [`EndpointRead::until_short_packet()`]. It does not have any state
/// other than that of the underlying [`EndpointRead`], so dropping and re-creating with another
/// call to [`EndpointRead::until_short_packet()`] has no effect. Every operation leaves it with the
/// same [`EndpointRead`], so that what it has done to it is what is found there afterwards.
pub struct EndpointReadUntilShortPacket<'a> {
    pub reader: &'a mut EndpointRead,
}

impl<'a> View for EndpointReadUntilShortPacket<'a> {
    type V = ReaderModel;

    /// The state of the underlying reader.
    open spec fn view(&self) -> ReaderModel {
        (*self.reader)@
    }
}

/// Error returned by [`EndpointReadUntilShortPacket::consume_end()`]
/// when the reader is not at the end of a short packet.
#[derive(Debug, Clone, Copy, PartialEq, Eq, Structural)]
pub struct ExpectedShortPacket;

impl ExpectedShortPacket {
    /// Describe the error.
    pub fn message(&self) -> (r: &'static str)
        ensures
            r@ == "expected short packet"@,
    {
        "expected short packet"
    }
}

impl ReaderModel {
    /// Whether everything up to the end of a short packet was read.
    pub open spec fn at_short_end(self) -> bool {
        !self.has_data(false) && self.has_data(true)
    }

    /// The reader after it has gone past the end of a short packet.
    pub open spec fn past_short_end(self) -> ReaderModel {
        ReaderModel {
            reading: Some(ReadModel { pos: usize::MAX as nat, ..self.reading->0 }),
            ..self
        }
    }
}

/// Once all the data of a transfer was consumed, the reader is at the end of a short packet exactly
/// if less was received than was asked for and the transfer did not fail.
pub proof fn law_consuming_all_reaches_short_end(m: ReaderModel)
    requires
        m.reading is Some,
        m.reading->0.pos <= m.reading->0.buf.data.len(),
    ensures
        m.consumed(m.available()).at_short_end() <==> m.reading->0.buf.data.len()
            < m.reading->0.buf.requested_len && m.reading->0.error() is None,
{
}

proof fn lemma_found_has_data(m: ReaderModel, until_short: bool)
    ensures
        m.filled(until_short).1 == Poll::Ready(true) ==> m.filled(until_short).0.has_data(
            until_short,
        ),
    decreases leading_done(m.endpoint.queue),
{
    if !m.has_data(until_short) && m.polled().1 == Poll::Ready(true) {
        lemma_refill_keeps_done(m);
        lemma_found_has_data(m.polled().0, until_short);
    }
}

/// After filling the buffer up to the end of a short packet, the reader is at that end exactly if it
/// was handed no data and no error.
pub proof fn law_no_data_means_short_end(m: ReaderModel, r: Result<&[u8], IoError>)
    requires
        m.wf(),
        m.filled(true).1 == Poll::Ready(true),
        hands_out(m.filled(true).0.reading->0, r),
    ensures
        m.filled(true).0.at_short_end() <==> (r matches Ok(data) && data@.len() == 0),
{
    lemma_found_has_data(m, true);
}

/// The reader is at the end of a short packet exactly if a transfer is being read that received less
/// than was asked for and did not fail, other than by being cancelled, if all its data was consumed,
/// and if its end was not. Consuming the end keeps the buffer, and changes nothing else.
pub proof fn law_short_end_is_behind_data(m: ReaderModel)
    ensures
        m.at_short_end() <==> (m.reading matches Some(r) && r.buf.data.len() <= r.pos
            < r.buf.requested_len && (r.status is Ok || r.status == Err::<(), TransferError>(
            TransferError::Cancelled,
        ))),
        m.reading matches Some(r) ==> {
            let after = m.past_short_end();
            &&& after.reading matches Some(x) && x.buf == r.buf && x.status == r.status && x.pos
                == usize::MAX
            &&& after.endpoint == m.endpoint
            &&& after.num_transfers == m.num_transfers
        },
{
}

/// Consuming moves on by as many bytes as were consumed, and changes nothing else.
pub proof fn law_consuming_moves_on(m: ReaderModel, len: nat)
    ensures
        m.reading is None ==> m.consumed(len) == m && m.available() == 0,
        m.reading matches Some(r) ==> {
            &&& m.consumed(len).reading matches Some(x) && x.pos == r.pos + len && x.buf == r.buf
                && x.status == r.status
            &&& r.pos <= r.buf.data.len() ==> m.available() == r.buf.data.len() - r.pos
        },
        m.consumed(len).endpoint == m.endpoint,
        m.consumed(len).num_transfers == m.num_transfers,
        m.consumed(len).transfer_size == m.transfer_size,
        m.consumed(len).read_timeout == m.read_timeout,
{
}

/// At the end of a short packet reading stops there, without data and without an error, until the
/// end is consumed; after that the reader has nothing left of that transfer.
pub proof fn law_short_end_ends_message(m: ReaderModel)
    requires
        m.wf(),
        m.at_short_end(),
        m.reading->0.buf.requested_len <= usize::MAX,
    ensures
        m.filled(true) == (m, Poll::Ready(true)),
        m.reading->0.rest().len() == 0,
        m.reading->0.error() is None,
        m.past_short_end().wf(),
        !m.past_short_end().has_data(true),
        !m.past_short_end().has_data(false),
        m.past_short_end().unread() == m.unread(),
{
    let r = m.reading->0;
    assert(r.rest() =~= seq![]);
    assert(m.past_short_end().reading->0.rest() =~= seq![]);
}

impl<'a> EndpointReadUntilShortPacket<'a> {
    /// Check if the endpoint has reached the end of a short packet.
    ///
    /// Upon reading the end of a short packet, the next `read()` or `fill_buf()` will return 0
    /// bytes (EOF) and this method will return `true`. To begin reading the next message, call
    /// `consume_end()`.
    pub fn is_end(&self) -> (r: bool)
        ensures
            r == self@.at_short_end(),
    {
        !self.reader.has_data() && self.reader.has_data_or_short_end()
    }

    /// Consume the end of a short packet.
    ///
    /// Use this after `read()` or `fill_buf()` have returned EOF to reset the reader to read the
    /// next message.
    ///
    /// Returns an error and does nothing if the reader [is not at the end of a short
    /// packet](Self::is_end). An end is consumed once: right after it was, the reader is not at an
    /// end.
    pub fn consume_end(&mut self) -> (r: Result<(), ExpectedShortPacket>)
        ensures
            *final(final(self).reader) == *final(old(self).reader),
            r is Ok <==> old(self)@.at_short_end(),
            r is Ok ==> final(self)@ == old(self)@.past_short_end(),
            r is Ok ==> !final(self)@.has_data(true) && !final(self)@.at_short_end(),
            r is Err ==> final(self)@ == old(self)@,
            old(self)@.wf() ==> final(self)@.wf(),
    {
        if self.is_end() {
            let mut reading = self.reader.reading.take();
            if let Some(r) = &mut reading {
                r.clear_short_packet();
            }
            self.reader.reading = reading;
            Ok(())
        } else {
            Err(ExpectedShortPacket)
        }
    }

    /// Get the data that was received, reading more if there is none, up to the end of a short
    /// packet.
    ///
    /// It is an error if reading ends without a short packet, or if there is nothing to return and
    /// the time limit for the oldest transfer has passed.
    pub fn fill_buf(&mut self, timed_out: bool) -> (r: Poll<Result<&[u8], IoError>>)
        requires
            old(self)@.wf(),
        ensures
            *final(final(self).reader) == *final(old(self).reader),
            final(self)@ == old(self)@.filled(true).0,
            final(self)@.wf(),
            match old(self)@.filled(true).1 {
                Poll::Pending => if timed_out {
                    r matches Poll::Ready(Err(e)) && e == IoError::TimedOut
                } else {
                    r is Pending
                },
                Poll::Ready(false) => r matches Poll::Ready(Err(e)) && e
                    == IoError::UnexpectedEof,
                Poll::Ready(true) => r matches Poll::Ready(x) && hands_out(
                    final(self)@.reading->0,
                    x,
                ),
            },
    {
        match self.reader.fill(true) {
            Poll::Pending => if timed_out {
                Poll::Ready(Err(IoError::TimedOut))
            } else {
                Poll::Pending
            },
            Poll::Ready(false) => Poll::Ready(Err(IoError::UnexpectedEof)),
            Poll::Ready(true) => Poll::Ready(self.reader.remaining()),
        }
    }

    /// Read data into `buf`, up to the end of a short packet. The number of bytes read is 0 at the
    /// end of a short packet. It is an error if reading ends without one.
    pub fn poll_read(&mut self, buf: &mut [u8]) -> (r: Poll<Result<usize, IoError>>)
        requires
            old(self)@.wf(),
        ensures
            *final(final(self).reader) == *final(old(self).reader),
            final(self)@.wf(),
            ({
                let (m, ready) = old(self)@.filled(true);
                match ready {
                    Poll::Pending => r is Pending && final(self)@ == m && final(buf)@ == old(buf)@,
                    Poll::Ready(false) => r == Poll::<Result<usize, IoError>>::Ready(
                        Err(IoError::UnexpectedEof),
                    ) && final(self)@ == m && final(buf)@ == old(buf)@,
                    Poll::Ready(true) => r matches Poll::Ready(x) && took(
                        m,
                        old(buf)@,
                        final(self)@,
                        final(buf)@,
                        x,
                    ),
                }
            }),
    {
        match self.reader.fill(true) {
            Poll::Pending => Poll::Pending,
            Poll::Ready(false) => Poll::Ready(Err(IoError::UnexpectedEof)),
            Poll::Ready(true) => Poll::Ready(self.reader.take(buf)),
        }
    }

    /// Mark bytes that `fill_buf` returned as consumed.
    pub fn consume(&mut self, len: usize)
        requires
            len <= old(self)@.available(),
        ensures
            *final(final(self).reader) == *final(old(self).reader),
            final(self)@ == old(self)@.consumed(len as nat),
            old(self)@.wf() ==> final(self)@.wf(),
    {
        self.reader.consume(len);
    }
}

} // verus!
