//! Writing to an OUT endpoint.

use std::time::Duration;

use vstd::prelude::*;

use crate::endpoint::{Endpoint, EndpointModel, Poll, SlotModel};
use crate::transfer::{Buffer, BufferModel, Completion, CompletionModel, TransferError};

use super::{read, IoError};

verus! {

/// What is known of a writer.
#[verifier::ext_equal]
pub struct WriterModel {
    pub endpoint: EndpointModel,
    pub writing: Option<BufferModel>,
    pub transfer_size: nat,
    pub num_transfers: nat,
    pub write_timeout: Option<Duration>,
}

/// The data of the buffers in a queue that have not been handed to the operating system.
pub open spec fn queued_data(queue: Seq<SlotModel>) -> Seq<u8>
    decreases queue.len(),
{
    if queue.len() == 0 {
        seq![]
    } else {
        let before = queued_data(queue.drop_last());
        match queue.last() {
            SlotModel::Queued(buffer) => before + buffer.data,
            _ => before,
        }
    }
}

/// Whether the buffer of a transfer, unless the operating system has it, is of a size, or that of a
/// zero-length packet. One that was submitted holds no more than its size.
pub open spec fn is_chunk(slot: SlotModel, size: nat) -> bool {
    match slot {
        SlotModel::Queued(b) => (b.capacity == size || b.capacity == 0) && b.data.len()
            <= b.capacity,
        SlotModel::InFlight(_) => true,
        SlotModel::Done(c) => c.buffer.capacity == size || c.buffer.capacity == 0,
    }
}

impl WriterModel {
    /// What every operation keeps.
    pub open spec fn wf(self) -> bool {
        &&& 0 < self.transfer_size <= u32::MAX
        &&& self.num_transfers > 0
        &&& self.endpoint.max_packet_size > 0
        &&& self.writing matches Some(b) ==> b.data.len() < b.capacity
    }

    /// Whether the buffers are of the transfer size: the one that is being filled, and those of the
    /// transfers that were submitted or are done, except where it is a zero-length packet.
    pub open spec fn in_chunks(self) -> bool {
        &&& self.writing matches Some(b) ==> b.capacity == self.transfer_size
        &&& forall|i: int|
            0 <= i < self.endpoint.queue.len() ==> is_chunk(
                #[trigger] self.endpoint.queue[i],
                self.transfer_size,
            )
    }

    /// The same writer with another queue.
    pub open spec fn with_queue(self, queue: Seq<SlotModel>) -> WriterModel {
        WriterModel { endpoint: EndpointModel { queue, ..self.endpoint }, ..self }
    }

    /// Whether there is no data in the buffer that is being filled.
    pub open spec fn is_empty(self) -> bool {
        self.writing matches Some(b) ==> b.data.len() == 0
    }

    /// The data that was written and not yet handed to the operating system.
    pub open spec fn unsent(self) -> Seq<u8> {
        match self.writing {
            Some(b) => queued_data(self.endpoint.queue) + b.data,
            None => queued_data(self.endpoint.queue),
        }
    }

    /// The writer after the oldest transfer has completed. Its buffer is used again for what is
    /// written next, unless it was a zero-length packet or there are too many transfers.
    pub open spec fn completed(self, c: CompletionModel) -> WriterModel {
        let queue = self.endpoint.queue.drop_first();
        WriterModel {
            writing: if c.buffer.capacity > 0 && queue.len() < self.num_transfers {
                Some(BufferModel { data: seq![], ..c.buffer })
            } else {
                self.writing
            },
            ..self.with_queue(queue)
        }
    }

    /// The writer after it has got a buffer to write to, and whether it has: if there are too many
    /// transfers, one has to complete first, and it may have failed.
    pub open spec fn prepared(self) -> (WriterModel, Poll<Result<(), IoError>>)
        decreases read::leading_done(self.endpoint.queue),
    {
        let queue = self.endpoint.queue;
        if self.writing is Some {
            (self, Poll::Ready(Ok(())))
        } else if queue.len() < self.num_transfers {
            (
                WriterModel { writing: Some(BufferModel::empty(self.transfer_size)), ..self },
                Poll::Ready(Ok(())),
            )
        } else if queue.len() == 0 || !(queue[0] is Done) {
            (self, Poll::Pending)
        } else {
            let c = queue[0]->Done_0;
            match c.status {
                Ok(_) => self.completed(c).prepared(),
                Err(e) => (self.completed(c), Poll::Ready(Err(IoError::Transfer(e)))),
            }
        }
    }

    /// The writer after as much of `src` as fits was put into its buffer, which is submitted if it
    /// is full then.
    pub open spec fn written(self, src: Seq<u8>) -> WriterModel {
        let b = self.writing->0;
        let filled = BufferModel { data: b.data + src.take(self.accepts(src) as int), ..b };
        if filled.data.len() == filled.capacity {
            WriterModel {
                writing: None,
                ..self.with_queue(self.endpoint.queue.push(SlotModel::Queued(filled)))
            }
        } else {
            WriterModel { writing: Some(filled), ..self }
        }
    }

    /// How much of `src` fits into the buffer.
    pub open spec fn accepts(self, src: Seq<u8>) -> nat {
        let room = self.writing->0.capacity - self.writing->0.data.len();
        if src.len() < room {
            src.len()
        } else {
            room as nat
        }
    }

    /// The writer after the data in its buffer, if any, was submitted.
    pub open spec fn submitted(self) -> WriterModel {
        match self.writing {
            Some(b) => if b.data.len() > 0 {
                WriterModel {
                    writing: None,
                    ..self.with_queue(self.endpoint.queue.push(SlotModel::Queued(b)))
                }
            } else {
                self
            },
            None => self,
        }
    }

    /// The writer after the data in its buffer was submitted with a short packet at its end: if
    /// the data is a whole number of packets, or if there is no buffer, with a zero-length packet.
    pub open spec fn submitted_end(self) -> WriterModel {
        let queue = self.endpoint.queue;
        let zero_length = SlotModel::Queued(BufferModel::empty(0));
        let submitted = match self.writing {
            Some(b) => if b.data.len() > 0 && b.data.len() % self.endpoint.max_packet_size == 0 {
                queue.push(SlotModel::Queued(b)).push(zero_length)
            } else {
                queue.push(SlotModel::Queued(b))
            },
            None => queue.push(zero_length),
        };
        WriterModel { writing: None, ..self.with_queue(submitted) }
    }

    /// The writer after it has gone through the completed transfers, and whether all are done: it
    /// stops at the first that has failed.
    pub open spec fn drained(self) -> (WriterModel, Poll<Result<(), IoError>>)
        decreases self.endpoint.queue.len(),
    {
        let queue = self.endpoint.queue;
        if queue.len() == 0 {
            (self, Poll::Ready(Ok(())))
        } else if !(queue[0] is Done) {
            (self, Poll::Pending)
        } else {
            let c = queue[0]->Done_0;
            match c.status {
                Ok(_) => self.completed(c).drained(),
                Err(e) => (self.completed(c), Poll::Ready(Err(IoError::Transfer(e)))),
            }
        }
    }
}

proof fn lemma_queued_data_of_tail(queue: Seq<SlotModel>)
    requires
        queue.len() > 0,
        !(queue[0] is Queued),
    ensures
        queued_data(queue.drop_first()) == queued_data(queue),
    decreases queue.len(),
{
    if queue.len() == 1 {
        assert(queue.drop_first() =~= seq![]);
        assert(queue.drop_last() =~= seq![]);
    } else {
        assert(queue.drop_last()[0] == queue[0]);
        lemma_queued_data_of_tail(queue.drop_last());
        assert(queue.drop_first().drop_last() =~= queue.drop_last().drop_first());
    }
}

/// Getting a buffer to write to changes nothing about the data that was written, and leaves room
/// for one more transfer.
pub proof fn law_preparing_keeps_data(m: WriterModel)
    requires
        m.wf(),
    ensures
        m.prepared().0.unsent() == m.unsent(),
        m.prepared().0.wf(),
        m.writing is None && m.prepared().1 == Poll::<Result<(), IoError>>::Ready(Ok(()))
            ==> m.prepared().0.endpoint.queue.len() < m.num_transfers,
    decreases read::leading_done(m.endpoint.queue),
{
    let queue = m.endpoint.queue;
    if m.writing is None {
        if queue.len() < m.num_transfers {
            assert(queued_data(queue) + seq![] =~= queued_data(queue));
        } else if queue[0] is Done {
            let after = m.completed(queue[0]->Done_0);
            lemma_queued_data_of_tail(queue);
            assert(after.unsent() =~= m.unsent());
            if queue[0]->Done_0.status is Ok {
                law_preparing_keeps_data(after);
            }
        }
    }
}

proof fn lemma_completing_keeps_chunks(m: WriterModel)
    requires
        m.in_chunks(),
        m.endpoint.queue.len() > 0,
        m.endpoint.queue[0] is Done,
    ensures
        m.completed(m.endpoint.queue[0]->Done_0).in_chunks(),
{
    let queue = m.endpoint.queue;
    assert(is_chunk(queue[0], m.transfer_size));
    assert forall|i: int| 0 <= i < queue.drop_first().len() implies is_chunk(
        #[trigger] queue.drop_first()[i],
        m.transfer_size,
    ) by {
        assert(queue.drop_first()[i] == queue[i + 1]);
    }
}

proof fn lemma_preparing_keeps_chunks(m: WriterModel)
    requires
        m.in_chunks(),
    ensures
        m.prepared().0.in_chunks(),
    decreases read::leading_done(m.endpoint.queue),
{
    let queue = m.endpoint.queue;
    if m.writing is None && m.num_transfers <= queue.len() && queue.len() > 0 && queue[0] is Done {
        lemma_completing_keeps_chunks(m);
        if queue[0]->Done_0.status is Ok {
            lemma_preparing_keeps_chunks(m.completed(queue[0]->Done_0));
        }
    }
}

proof fn lemma_draining_keeps_chunks(m: WriterModel)
    requires
        m.in_chunks(),
    ensures
        m.drained().0.in_chunks(),
    decreases m.endpoint.queue.len(),
{
    let queue = m.endpoint.queue;
    if queue.len() > 0 && queue[0] is Done {
        lemma_completing_keeps_chunks(m);
        if queue[0]->Done_0.status is Ok {
            lemma_draining_keeps_chunks(m.completed(queue[0]->Done_0));
        }
    }
}

/// The buffers stay of the transfer size, whatever is done, as long as the operating system gives
/// back buffers of that size.
pub proof fn law_buffers_keep_transfer_size(m: WriterModel, src: Seq<u8>, slot: SlotModel, at: int)
    requires
        m.wf(),
        m.in_chunks(),
    ensures
        m.prepared().0.in_chunks(),
        m.writing is Some ==> m.written(src).in_chunks(),
        m.submitted().in_chunks(),
        m.submitted_end().in_chunks(),
        m.drained().0.in_chunks(),
        0 <= at < m.endpoint.queue.len() && is_chunk(slot, m.transfer_size) ==> m.with_queue(
            m.endpoint.queue.update(at, slot),
        ).in_chunks(),
{
    lemma_preparing_keeps_chunks(m);
    lemma_draining_keeps_chunks(m);
}

/// Data is sent in chunks of the transfer size: writing submits a buffer exactly when it is full,
/// and then it holds as many bytes as that size. Until then it is kept, with nothing submitted.
pub proof fn law_full_buffers_are_submitted(m: WriterModel, src: Seq<u8>)
    requires
        m.wf(),
        m.in_chunks(),
        m.writing is Some,
    ensures
        ({
            let before = m.writing->0.data;
            let after = m.written(src);
            if before.len() + src.len() >= m.transfer_size {
                &&& m.accepts(src) == m.transfer_size - before.len()
                &&& after.writing is None
                &&& after.endpoint.queue.drop_last() == m.endpoint.queue
                &&& after.endpoint.queue.last() matches SlotModel::Queued(b) && b.data == before
                    + src.take(m.accepts(src) as int) && b.data.len() == m.transfer_size
            } else {
                &&& m.accepts(src) == src.len()
                &&& after.endpoint == m.endpoint
                &&& after.writing matches Some(b) && b.data == before + src
            }
        }),
{
    let b = m.writing->0;
    let filled = BufferModel { data: b.data + src.take(m.accepts(src) as int), ..b };
    assert(m.endpoint.queue.push(SlotModel::Queued(filled)).drop_last() =~= m.endpoint.queue);
    if b.data.len() + src.len() < m.transfer_size {
        assert(src.take(src.len() as int) =~= src);
    }
}

/// Writing adds the bytes that it reports as written to the end of the data, and no others.
pub proof fn law_writing_appends(m: WriterModel, src: Seq<u8>)
    requires
        m.wf(),
        m.writing is Some,
    ensures
        m.written(src).unsent() == m.unsent() + src.take(m.accepts(src) as int),
        m.accepts(src) <= src.len(),
        src.len() > 0 ==> m.accepts(src) > 0,
        m.accepts(src) + m.writing->0.data.len() <= m.writing->0.capacity,
        m.accepts(src) == src.len() || m.accepts(src) + m.writing->0.data.len()
            == m.writing->0.capacity,
{
    let b = m.writing->0;
    let filled = BufferModel { data: b.data + src.take(m.accepts(src) as int), ..b };
    let queue = m.endpoint.queue;
    assert(queue.push(SlotModel::Queued(filled)).drop_last() =~= queue);
    assert(queued_data(queue) + (b.data + src.take(m.accepts(src) as int)) =~= m.unsent()
        + src.take(m.accepts(src) as int));
}

/// Submitting changes nothing about the data that was written.
pub proof fn law_submitting_keeps_data(m: WriterModel)
    ensures
        m.submitted().unsent() == m.unsent(),
        m.submitted_end().unsent() == m.unsent(),
{
    let queue = m.endpoint.queue;
    let zero_length = SlotModel::Queued(BufferModel::empty(0));
    if let Some(b) = m.writing {
        let with_buffer = queue.push(SlotModel::Queued(b));
        assert(with_buffer.drop_last() =~= queue);
        assert(with_buffer.push(zero_length).drop_last() =~= with_buffer);
        assert(queued_data(with_buffer) + seq![] =~= queued_data(with_buffer));
    } else {
        assert(queue.push(zero_length).drop_last() =~= queue);
        assert(queued_data(queue) + seq![] =~= queued_data(queue));
    }
}

proof fn lemma_nothing_queued(queue: Seq<SlotModel>)
    requires
        forall|k: int| 0 <= k < queue.len() ==> !(#[trigger] queue[k] is Queued),
    ensures
        queued_data(queue) == Seq::<u8>::empty(),
    decreases queue.len(),
{
    if queue.len() > 0 {
        assert(!(queue[queue.len() - 1] is Queued));
        lemma_nothing_queued(queue.drop_last());
    }
}

proof fn lemma_hand_over(queue: Seq<SlotModel>, at: int)
    requires
        0 <= at < queue.len(),
        queue[at] is Queued,
        forall|k: int| 0 <= k < at ==> !(#[trigger] queue[k] is Queued),
    ensures
        queued_data(queue) == queue[at]->Queued_0.data + queued_data(
            queue.update(at, SlotModel::InFlight(false)),
        ),
    decreases queue.len(),
{
    let after = queue.update(at, SlotModel::InFlight(false));
    if at == queue.len() - 1 {
        lemma_nothing_queued(queue.drop_last());
        assert(after.drop_last() =~= queue.drop_last());
        assert(queued_data(queue) =~= queue[at]->Queued_0.data + queued_data(after));
    } else {
        assert(queue.drop_last().update(at, SlotModel::InFlight(false)) =~= after.drop_last());
        lemma_hand_over(queue.drop_last(), at);
        assert(after.last() == queue.last());
        assert(queued_data(queue) =~= queue[at]->Queued_0.data + queued_data(after));
    }
}

/// What is handed to the operating system next is the beginning of the data that was written and
/// not handed over yet, and the rest of it is left for later.
pub proof fn law_data_is_handed_over_in_order(m: WriterModel)
    requires
        crate::endpoint::first_queued(m.endpoint.queue) < m.endpoint.queue.len(),
    ensures
        ({
            let queue = m.endpoint.queue;
            let at = crate::endpoint::first_queued(queue);
            let after = m.with_queue(queue.update(at, SlotModel::InFlight(false)));
            &&& queue[at] matches SlotModel::Queued(b)
            &&& m.unsent() == b.data + after.unsent()
        }),
{
    let queue = m.endpoint.queue;
    let at = crate::endpoint::first_queued(queue);
    crate::endpoint::law_first_queued_is_first(queue);
    lemma_hand_over(queue, at);
    let after = m.with_queue(queue.update(at, SlotModel::InFlight(false)));
    assert(m.unsent() =~= queue[at]->Queued_0.data + after.unsent());
}

/// Going through the completed transfers without an error leaves none pending.
proof fn lemma_drained(m: WriterModel)
    requires
        m.is_empty(),
    ensures
        m.drained().1 == Poll::<Result<(), IoError>>::Ready(Ok(()))
            ==> m.drained().0.endpoint.queue.len() == 0 && m.drained().0.is_empty(),
    decreases m.endpoint.queue.len(),
{
    let queue = m.endpoint.queue;
    if queue.len() > 0 && queue[0] is Done && queue[0]->Done_0.status is Ok {
        lemma_drained(m.completed(queue[0]->Done_0));
    }
}

/// Once flushing is done without an error, all that was written was sent: no transfer is pending,
/// and no data is left.
pub proof fn law_flushed_means_sent(m: WriterModel)
    ensures
        m.submitted().drained().1 == Poll::<Result<(), IoError>>::Ready(Ok(())) ==> {
            &&& m.submitted().drained().0.endpoint.queue.len() == 0
            &&& m.submitted().drained().0.unsent() == Seq::<u8>::empty()
        },
        m.submitted_end().drained().1 == Poll::<Result<(), IoError>>::Ready(Ok(())) ==> {
            &&& m.submitted_end().drained().0.endpoint.queue.len() == 0
            &&& m.submitted_end().drained().0.unsent() == Seq::<u8>::empty()
        },
{
    lemma_drained(m.submitted());
    lemma_drained(m.submitted_end());
    let a = m.submitted().drained().0;
    if a.endpoint.queue.len() == 0 && a.is_empty() {
        assert(a.unsent() =~= seq![]);
    }
    let b = m.submitted_end().drained().0;
    if b.endpoint.queue.len() == 0 && b.is_empty() {
        assert(b.unsent() =~= seq![]);
    }
}

/// Flushing succeeds exactly if every transfer that was submitted is done and none of them has
/// failed.
pub proof fn law_flush_succeeds_if_all_were_sent(m: WriterModel)
    ensures
        m.drained().1 == Poll::<Result<(), IoError>>::Ready(Ok(())) <==> forall|i: int|
            0 <= i < m.endpoint.queue.len() ==> (#[trigger] m.endpoint.queue[i] matches SlotModel::Done(
                c,
            ) && c.status is Ok),
    decreases m.endpoint.queue.len(),
{
    let queue = m.endpoint.queue;
    if queue.len() > 0 {
        let first = queue[0];
        if first is Done && first->Done_0.status is Ok {
            let rest = queue.drop_first();
            law_flush_succeeds_if_all_were_sent(m.completed(first->Done_0));
            assert(forall|i: int| 0 < i < queue.len() ==> #[trigger] queue[i] == rest[i - 1]);
            if forall|i: int|
                0 <= i < rest.len() ==> (#[trigger] rest[i] matches SlotModel::Done(c) && c.status
                    is Ok) {
                assert forall|i: int| 0 <= i < queue.len() implies (
                #[trigger] queue[i] matches SlotModel::Done(c) && c.status is Ok) by {
                    if i > 0 {
                        assert(queue[i] == rest[i - 1]);
                    }
                }
            } else {
                let i = choose|i: int|
                    0 <= i < rest.len() && !(#[trigger] rest[i] matches SlotModel::Done(c)
                        && c.status is Ok);
                assert(queue[i + 1] == rest[i]);
            }
        }
    }
}

/// Flushing stops at the first transfer that has failed and reports that failure. The transfers
/// behind it are left in the queue.
pub proof fn law_flush_reports_first_failure(m: WriterModel, k: int, e: TransferError)
    requires
        0 <= k < m.endpoint.queue.len(),
        forall|i: int|
            0 <= i < k ==> (#[trigger] m.endpoint.queue[i] matches SlotModel::Done(c) && c.status
                is Ok),
        m.endpoint.queue[k] matches SlotModel::Done(c) && c.status == Err::<(), TransferError>(e),
    ensures
        m.drained().1 == Poll::<Result<(), IoError>>::Ready(Err(IoError::Transfer(e))),
        m.drained().0.endpoint.queue == m.endpoint.queue.skip(k + 1),
    decreases k,
{
    let queue = m.endpoint.queue;
    if k > 0 {
        let first = queue[0];
        let after = m.completed(first->Done_0);
        assert forall|i: int| 0 <= i < k - 1 implies (
        #[trigger] after.endpoint.queue[i] matches SlotModel::Done(c) && c.status is Ok) by {
            assert(after.endpoint.queue[i] == queue[i + 1]);
        }
        law_flush_reports_first_failure(after, k - 1, e);
        assert(queue.drop_first().skip(k) =~= queue.skip(k + 1));
    } else {
        assert(queue.drop_first() =~= queue.skip(1));
    }
}

/// Flushing waits for the first transfer that is not done, if none before it has failed. That one
/// and those behind it are left in the queue.
pub proof fn law_flush_waits_for_first_pending(m: WriterModel, k: int)
    requires
        0 <= k < m.endpoint.queue.len(),
        forall|i: int|
            0 <= i < k ==> (#[trigger] m.endpoint.queue[i] matches SlotModel::Done(c) && c.status
                is Ok),
        !(m.endpoint.queue[k] is Done),
    ensures
        m.drained().1 is Pending,
        m.drained().0.endpoint.queue == m.endpoint.queue.skip(k),
    decreases k,
{
    let queue = m.endpoint.queue;
    if k > 0 {
        let first = queue[0];
        let after = m.completed(first->Done_0);
        assert forall|i: int| 0 <= i < k - 1 implies (
        #[trigger] after.endpoint.queue[i] matches SlotModel::Done(c) && c.status is Ok) by {
            assert(after.endpoint.queue[i] == queue[i + 1]);
        }
        law_flush_waits_for_first_pending(after, k - 1);
        assert(queue.drop_first().skip(k - 1) =~= queue.skip(k));
    } else {
        assert(queue.skip(0) =~= queue);
    }
}

/// Writing goes on at once with a buffer that is being filled, or if fewer transfers are pending
/// than are allowed. Otherwise it waits for the oldest transfer, and if that has failed, the failure
/// is what writing comes to.
pub proof fn law_writing_waits_for_oldest(m: WriterModel)
    ensures
        m.writing is Some ==> m.prepared() == (m, Poll::<Result<(), IoError>>::Ready(Ok(()))),
        m.writing is None && m.endpoint.queue.len() < m.num_transfers ==> {
            let (after, ready) = m.prepared();
            &&& ready == Poll::<Result<(), IoError>>::Ready(Ok(()))
            &&& after.endpoint == m.endpoint
            &&& after.writing matches Some(b) && b.data.len() == 0 && b.capacity == m.transfer_size
                && b.requested_len == m.transfer_size
        },
        m.writing is None && m.endpoint.queue.len() >= m.num_transfers && m.num_transfers > 0 ==> {
            let (after, ready) = m.prepared();
            match m.endpoint.queue[0] {
                SlotModel::Done(c) => match c.status {
                    Err(e) => ready == Poll::<Result<(), IoError>>::Ready(Err(IoError::Transfer(e)))
                        && after.endpoint.queue == m.endpoint.queue.skip(1),
                    Ok(_) => m.endpoint.queue.len() == m.num_transfers ==> ready == Poll::<
                        Result<(), IoError>,
                    >::Ready(Ok(())) && after.endpoint.queue == m.endpoint.queue.skip(1)
                        && after.writing is Some && (after.writing->0).data.len() == 0 && (
                    after.writing->0).capacity == if c.buffer.capacity > 0 {
                        c.buffer.capacity
                    } else {
                        m.transfer_size
                    },
                },
                _ => ready is Pending && after == m,
            }
        },
        m.writing is None && m.endpoint.queue.len() > m.num_transfers && m.num_transfers > 0 ==> (
        m.endpoint.queue[0] matches SlotModel::Done(c) ==> (c.status is Ok ==> m.prepared()
            == m.with_queue(m.endpoint.queue.skip(1)).prepared())),
        m.prepared().0.num_transfers == m.num_transfers,
        m.prepared().0.transfer_size == m.transfer_size,
        m.prepared().0.write_timeout == m.write_timeout,
        m.prepared().0.endpoint.address == m.endpoint.address,
        m.prepared().0.endpoint.max_packet_size == m.endpoint.max_packet_size,
    decreases read::leading_done(m.endpoint.queue),
{
    let queue = m.endpoint.queue;
    if m.writing is None && queue.len() >= m.num_transfers && queue.len() > 0 && queue[0] is Done {
        assert(queue.drop_first() =~= queue.skip(1));
        if queue[0]->Done_0.status is Ok {
            law_writing_waits_for_oldest(m.completed(queue[0]->Done_0));
        }
    }
}

/// A transfer that has completed leaves the queue. Its buffer is emptied and filled next, if there is
/// room in it and fewer transfers are left than are allowed; nothing else changes. Flushing goes on from
/// there if the transfer went well, and stops there if not.
pub proof fn law_completing_reuses_buffer(m: WriterModel, c: CompletionModel)
    requires
        m.endpoint.queue.len() > 0,
    ensures
        ({
            let after = m.completed(c);
            &&& after.endpoint.queue == m.endpoint.queue.skip(1)
            &&& after.endpoint.address == m.endpoint.address
            &&& after.endpoint.system == m.endpoint.system
            &&& after.endpoint.max_packet_size == m.endpoint.max_packet_size
            &&& after.transfer_size == m.transfer_size
            &&& after.num_transfers == m.num_transfers
            &&& after.write_timeout == m.write_timeout
            &&& c.buffer.capacity > 0 && m.endpoint.queue.len() <= m.num_transfers ==> (
            after.writing matches Some(b) && b.data.len() == 0 && b.capacity == c.buffer.capacity
                && b.requested_len == c.buffer.requested_len)
            &&& c.buffer.capacity == 0 || m.endpoint.queue.len() > m.num_transfers ==> after.writing
                == m.writing
        }),
        m.endpoint.queue[0] == SlotModel::Done(c) && c.status is Ok ==> m.drained() == m.completed(
            c,
        ).drained(),
        m.endpoint.queue[0] == SlotModel::Done(c) && c.status is Err ==> m.drained().0
            == m.completed(c),
        !(m.endpoint.queue[0] is Done) ==> m.drained().0 == m,
{
    assert(m.endpoint.queue.drop_first() =~= m.endpoint.queue.skip(1));
}

/// Submitting puts the buffer that is being filled, if there is data in it, behind the transfers in
/// the queue, and leaves these as they are. At the end of a message it is put there with or without
/// data, followed by a zero-length packet if there is no buffer or if the data is a whole number of
/// packets.
pub proof fn law_submitting_puts_buffer_last(m: WriterModel)
    ensures
        match m.writing {
            Some(b) => {
                &&& b.data.len() > 0 ==> m.submitted().endpoint.queue == m.endpoint.queue.push(
                    SlotModel::Queued(b),
                ) && m.submitted().writing is None
                &&& b.data.len() == 0 ==> m.submitted() == m
                &&& b.data.len() > 0 && b.data.len() % m.endpoint.max_packet_size == 0
                    ==> m.submitted_end().endpoint.queue == m.endpoint.queue.push(
                    SlotModel::Queued(b),
                ).push(
                    SlotModel::Queued(
                        BufferModel { data: seq![], requested_len: 0, capacity: 0 },
                    ),
                )
                &&& b.data.len() == 0 || b.data.len() % m.endpoint.max_packet_size != 0
                    ==> m.submitted_end().endpoint.queue == m.endpoint.queue.push(
                    SlotModel::Queued(b),
                )
            },
            None => {
                &&& m.submitted() == m
                &&& m.submitted_end().endpoint.queue == m.endpoint.queue.push(
                    SlotModel::Queued(
                        BufferModel { data: seq![], requested_len: 0, capacity: 0 },
                    ),
                )
            },
        },
        m.submitted_end().writing is None,
        m.submitted().num_transfers == m.num_transfers,
        m.submitted_end().num_transfers == m.num_transfers,
        m.submitted().transfer_size == m.transfer_size,
        m.submitted_end().transfer_size == m.transfer_size,
{
}

/// A writer on an endpoint without transfers has buffers of the transfer size only.
pub proof fn law_new_writer_is_in_chunks(m: WriterModel)
    requires
        m.writing is None,
        m.endpoint.queue.len() == 0,
    ensures
        m.in_chunks(),
{
}

/// The data that was written and not sent is that of the submitted buffers, oldest first, and that
/// of the buffer that is being filled.
pub proof fn law_unsent_is_in_buffers(m: WriterModel, b: BufferModel)
    ensures
        m.writing is None && m.endpoint.queue.len() == 0 ==> m.unsent() == Seq::<u8>::empty(),
        m.writing is None ==> (WriterModel { writing: Some(b), ..m }).unsent() == m.unsent() + b.data,
        m.writing is None ==> m.with_queue(m.endpoint.queue.push(SlotModel::Queued(b))).unsent()
            == m.unsent() + b.data,
        forall|slot: SlotModel|
            m.writing is None && !(slot is Queued) ==> #[trigger] m.with_queue(
                m.endpoint.queue.push(slot),
            ).unsent() == m.unsent(),
{
    assert(m.endpoint.queue.push(SlotModel::Queued(b)).drop_last() =~= m.endpoint.queue);
    assert forall|slot: SlotModel| m.writing is None && !(slot is Queued) implies #[trigger] m.with_queue(
        m.endpoint.queue.push(slot),
    ).unsent() == m.unsent() by {
        assert(m.endpoint.queue.push(slot).drop_last() =~= m.endpoint.queue);
    }
}

/// What `submit_end` submits last is shorter than a whole number of packets, or a zero-length
/// packet: either way it marks the end of a message.
pub proof fn law_submit_end_marks_end(m: WriterModel)
    requires
        m.wf(),
    ensures
        m.submitted_end().endpoint.queue.len() > m.endpoint.queue.len(),
        m.submitted_end().endpoint.queue.last() matches SlotModel::Queued(b) && (b.data.len() == 0
            || b.data.len() % m.endpoint.max_packet_size != 0),
{
}

/// Wrapper for a Bulk or Interrupt OUT [`Endpoint`] that manages transfers to provide a
/// higher-level buffered API.
///
/// Written data is buffered and may not be sent until the buffer is full or
/// [`submit`](Self::submit) / [`submit_end`](Self::submit_end) or
/// [`poll_flush`](Self::poll_flush) / [`flush_end`](Self::flush_end) are called.
#[derive(Debug)]
pub struct EndpointWrite {
    endpoint: Endpoint,
    writing: Option<Buffer>,
    transfer_size: usize,
    num_transfers: usize,
    write_timeout: Option<Duration>,
}

impl View for EndpointWrite {
    type V = WriterModel;

    closed spec fn view(&self) -> WriterModel {
        WriterModel {
            endpoint: self.endpoint@,
            writing: match self.writing {
                Some(b) => Some(b@),
                None => None,
            },
            transfer_size: self.transfer_size as nat,
            num_transfers: self.num_transfers as nat,
            write_timeout: self.write_timeout,
        }
    }
}

impl EndpointWrite {
    /// Create a new `EndpointWrite` wrapping the given endpoint.
    ///
    /// The `transfer_size` parameter is the size of the buffer passed to the OS for each transfer.
    /// It will be rounded up to the next multiple of the endpoint's max packet size. Data will be
    /// buffered and sent in chunks of this size, unless `flush` or [`submit`](Self::submit) are
    /// called to force sending a partial buffer immediately.
    pub fn new(endpoint: Endpoint, transfer_size: usize) -> (r: EndpointWrite)
        requires
            endpoint@.max_packet_size > 0,
            super::rounded_up(transfer_size as nat, endpoint@.max_packet_size) <= u32::MAX,
        ensures
            r@ == (WriterModel {
                endpoint: endpoint@,
                writing: None,
                transfer_size: super::rounded_up(transfer_size as nat, endpoint@.max_packet_size),
                num_transfers: 1,
                write_timeout: None,
            }),
            r@.wf(),
    {
        proof {
            super::law_rounded_up(transfer_size as nat, endpoint@.max_packet_size);
        }
        let packet_size: usize = endpoint.max_packet_size();
        let transfer_size: usize = super::round_up(transfer_size, packet_size);
        EndpointWrite {
            endpoint,
            writing: None,
            transfer_size,
            num_transfers: 1,
            write_timeout: None,
        }
    }

    /// Set the maximum number of transfers that can be queued with the OS before backpressure is
    /// applied.
    ///
    /// If as many transfers are pending, writing has to wait until a transfer completes. The number
    /// must be greater than zero.
    pub fn set_num_transfers(&mut self, num_transfers: usize)
        requires
            num_transfers > 0,
        ensures
            final(self)@ == (WriterModel { num_transfers: num_transfers as nat, ..old(self)@ }),
    {
        self.num_transfers = num_transfers;
    }

    /// Set the maximum number of transfers that can be queued with the OS before backpressure is
    /// applied.
    ///
    /// See [Self::set_num_transfers] -- this is for method chaining with `EndpointWrite::new()`.
    pub fn with_num_transfers(self, num_transfers: usize) -> (r: EndpointWrite)
        requires
            num_transfers > 0,
        ensures
            r@ == (WriterModel { num_transfers: num_transfers as nat, ..self@ }),
    {
        let mut r = self;
        r.set_num_transfers(num_transfers);
        r
    }

    /// Set the timeout for a transfer in the blocking `write` APIs.
    ///
    /// When a timeout occurs, writing new data fails but transfers for previously-written data are
    /// not cancelled. The data passed in the failed `write` call is not written to the buffer.
    pub fn set_write_timeout(&mut self, timeout: Duration)
        ensures
            final(self)@ == (WriterModel { write_timeout: Some(timeout), ..old(self)@ }),
    {
        self.write_timeout = Some(timeout);
    }

    /// Set the timeout for an individual transfer for the blocking `write` APIs.
    ///
    /// See [Self::set_write_timeout] -- this is for method chaining with `EndpointWrite::new()`.
    pub fn with_write_timeout(self, timeout: Duration) -> (r: EndpointWrite)
        ensures
            r@ == (WriterModel { write_timeout: Some(timeout), ..self@ }),
    {
        let mut r = self;
        r.set_write_timeout(timeout);
        r
    }

    /// The timeout for waiting for a transfer; none if there is no limit.
    pub fn write_timeout(&self) -> (r: Option<Duration>)
        ensures
            r == self@.write_timeout,
    {
        self.write_timeout
    }

    /// Destroy this `EndpointWrite` and return the underlying [`Endpoint`].
    ///
    /// Any pending transfers are not cancelled.
    pub fn into_inner(self) -> (r: Endpoint)
        ensures
            r@ == self@.endpoint,
    {
        self.endpoint
    }

    /// The underlying endpoint, for handing its transfers to the operating system.
    pub fn endpoint_mut(&mut self) -> (r: &mut Endpoint)
        ensures
            r@ == old(self)@.endpoint,
            final(self)@ == (WriterModel { endpoint: final(r)@, ..old(self)@ }),
    {
        &mut self.endpoint
    }

    fn handle_completion(&mut self, c: Completion) -> (r: Result<(), IoError>)
        requires
            old(self)@.is_empty(),
        ensures
            final(self)@ == (WriterModel {
                writing: if c@.buffer.capacity > 0 && old(self)@.endpoint.queue.len() < old(
                    self)@.num_transfers {
                    Some(BufferModel { data: seq![], ..c@.buffer })
                } else {
                    old(self)@.writing
                },
                ..old(self)@
            }),
            r == match c.status {
                Ok(_) => Ok::<(), IoError>(()),
                Err(e) => Err(IoError::Transfer(e)),
            },
    {
        let mut buf = c.buffer;
        if buf.capacity() > 0 && self.endpoint.pending() < self.num_transfers {
            buf.clear();
            self.writing = Some(buf);
        }
        match c.status {
            Ok(_) => Ok(()),
            Err(e) => Err(IoError::Transfer(e)),
        }
    }

    fn poll_one(&mut self) -> (r: Poll<Result<(), IoError>>)
        requires
            old(self)@.endpoint.queue.len() > 0,
            old(self)@.is_empty(),
        ensures
            old(self)@.wf() ==> final(self)@.wf(),
            match old(self)@.endpoint.queue[0] {
                SlotModel::Done(c) => {
                    &&& final(self)@ == old(self)@.completed(c)
                    &&& final(self)@.is_empty()
                    &&& r == Poll::Ready(
                        match c.status {
                            Ok(_) => Ok::<(), IoError>(()),
                            Err(e) => Err(IoError::Transfer(e)),
                        },
                    )
                },
                _ => r is Pending && final(self)@ == old(self)@,
            },
    {
        match self.endpoint.poll_next_complete() {
            Poll::Ready(c) => Poll::Ready(self.handle_completion(c)),
            Poll::Pending => Poll::Pending,
        }
    }

    /// Get a buffer to write to.
    fn prepare(&mut self) -> (r: Poll<Result<(), IoError>>)
        requires
            old(self)@.wf(),
        ensures
            (final(self)@, r) == old(self)@.prepared(),
            final(self)@.wf(),
            r matches Poll::Ready(Ok(_)) ==> final(self)@.writing is Some,
    {
        loop
            invariant
                self@.wf(),
                self@.prepared() == old(self)@.prepared(),
            decreases read::leading_done(self@.endpoint.queue),
        {
            if self.writing.is_some() {
                return Poll::Ready(Ok(()));
            }
            if self.endpoint.pending() < self.num_transfers {
                self.writing = Some(self.endpoint.allocate(self.transfer_size));
                return Poll::Ready(Ok(()));
            }
            match self.poll_one() {
                Poll::Ready(Ok(())) => {},
                Poll::Ready(Err(e)) => return Poll::Ready(Err(e)),
                Poll::Pending => return Poll::Pending,
            }
        }
    }

    /// Write data to the endpoint.
    ///
    /// Data is buffered and not written until the buffer is full or it is submitted. Writing
    /// returns [`Poll::Pending`] if there are already too many transfers pending, as configured by
    /// [`set_num_transfers`][EndpointWrite::set_num_transfers]. If a transfer that completed has
    /// failed, that error is returned and nothing is written.
    pub fn poll_write(&mut self, src: &[u8]) -> (r: Poll<Result<usize, IoError>>)
        requires
            old(self)@.wf(),
        ensures
            final(self)@.wf(),
            ({
                let (m, ready) = old(self)@.prepared();
                match ready {
                    Poll::Pending => r is Pending && final(self)@ == m,
                    Poll::Ready(Err(e)) => r == Poll::<Result<usize, IoError>>::Ready(Err(e))
                        && final(self)@ == m,
                    Poll::Ready(Ok(_)) => r == Poll::<Result<usize, IoError>>::Ready(
                        Ok(m.accepts(src@) as usize),
                    ) && final(self)@ == m.written(src@),
                }
            }),
    {
        match self.prepare() {
            Poll::Ready(Ok(())) => {},
            Poll::Ready(Err(e)) => return Poll::Ready(Err(e)),
            Poll::Pending => return Poll::Pending,
        }
        let ghost m = self@;
        let mut buf = match self.writing.take() {
            Some(buf) => buf,
            None => return Poll::Pending,
        };
        let _total: usize = buf.len();
        let room: usize = buf.remaining_capacity();
        let len: usize = if src.len() < room {
            src.len()
        } else {
            room
        };
        assert(len == m.accepts(src@));
        buf.extend_from_slice(vstd::slice::slice_subrange(src, 0, len));
        if buf.remaining_capacity() == 0 {
            self.endpoint.submit(buf);
        } else {
            self.writing = Some(buf);
        }
        assert(self@ =~= m.written(src@));
        Poll::Ready(Ok(len))
    }

    /// Write data to the endpoint, as [`poll_write`](Self::poll_write) does. It is an error if
    /// there are too many transfers and the time limit for the oldest has passed; nothing is
    /// written then, and that transfer goes on.
    pub fn write(&mut self, src: &[u8], timed_out: bool) -> (r: Poll<Result<usize, IoError>>)
        requires
            old(self)@.wf(),
        ensures
            final(self)@.wf(),
            ({
                let (m, ready) = old(self)@.prepared();
                match ready {
                    Poll::Pending => final(self)@ == m && if timed_out {
                        r == Poll::<Result<usize, IoError>>::Ready(Err(IoError::TimedOut))
                    } else {
                        r is Pending
                    },
                    Poll::Ready(Err(e)) => r == Poll::<Result<usize, IoError>>::Ready(Err(e))
                        && final(self)@ == m,
                    Poll::Ready(Ok(_)) => r == Poll::<Result<usize, IoError>>::Ready(
                        Ok(m.accepts(src@) as usize),
                    ) && final(self)@ == m.written(src@),
                }
            }),
    {
        match self.poll_write(src) {
            Poll::Pending => if timed_out {
                Poll::Ready(Err(IoError::TimedOut))
            } else {
                Poll::Pending
            },
            r => r,
        }
    }

    /// Submit any buffered data to the OS immediately.
    ///
    /// This submits the current buffer even if it is not full, but does not wait for the transfer
    /// to complete or confirm that it was successful. If the buffer is empty, this does nothing.
    pub fn submit(&mut self)
        ensures
            final(self)@ == old(self)@.submitted(),
            old(self)@.wf() ==> final(self)@.wf(),
            final(self)@.is_empty(),
    {
        if let Some(buf) = self.writing.take() {
            if !buf.is_empty() {
                self.endpoint.submit(buf);
            } else {
                self.writing = Some(buf);
            }
        }
    }

    /// Submit any buffered data to the OS immediately, terminating with a short or zero-length
    /// packet.
    ///
    /// Some USB protocols use packets shorter than the endpoint's max packet size as a delimiter
    /// marking the end of a message. This method forces such a delimiter by adding a zero-length
    /// packet if the current buffer is a multiple of the endpoint's max packet size.
    ///
    /// This does not wait for the transfer to complete or confirm that it was successful (see
    /// [Self::flush_end]). If the buffer is empty, this sends a zero-length packet.
    pub fn submit_end(&mut self)
        requires
            old(self)@.endpoint.max_packet_size > 0,
        ensures
            final(self)@ == old(self)@.submitted_end(),
            old(self)@.wf() ==> final(self)@.wf(),
    {
        let zlp: bool = if let Some(t) = self.writing.take() {
            let len: usize = t.len();
            self.endpoint.submit(t);
            len != 0 && len % self.endpoint.max_packet_size() == 0
        } else {
            true
        };

        if zlp {
            self.endpoint.submit(Buffer::new(0));
        }
        assert(self@ =~= old(self)@.submitted_end());
    }

    /// Go through the completed transfers until none is pending. It is an error if one has failed,
    /// or if the oldest is not done and its time limit has passed.
    pub fn drain(&mut self, timed_out: bool) -> (r: Poll<Result<(), IoError>>)
        requires
            old(self)@.wf(),
            old(self)@.is_empty(),
        ensures
            final(self)@ == old(self)@.drained().0,
            final(self)@.wf(),
            final(self)@.is_empty(),
            r == if timed_out && old(self)@.drained().1 is Pending {
                Poll::Ready(Err(IoError::TimedOut))
            } else {
                old(self)@.drained().1
            },
    {
        while self.endpoint.pending() > 0
            invariant
                self@.wf(),
                self@.is_empty(),
                self@.drained() == old(self)@.drained(),
            decreases self@.endpoint.queue.len(),
        {
            match self.poll_one() {
                Poll::Ready(Ok(())) => {},
                Poll::Ready(Err(e)) => return Poll::Ready(Err(e)),
                Poll::Pending => return if timed_out {
                    Poll::Ready(Err(IoError::TimedOut))
                } else {
                    Poll::Pending
                },
            }
        }
        Poll::Ready(Ok(()))
    }

    /// Submit any buffered data immediately and wait for all pending transfers to complete or
    /// fail.
    pub fn poll_flush(&mut self) -> (r: Poll<Result<(), IoError>>)
        requires
            old(self)@.wf(),
        ensures
            (final(self)@, r) == old(self)@.submitted().drained(),
            final(self)@.wf(),
            final(self)@.is_empty(),
    {
        self.submit();
        self.drain(false)
    }

    /// Submit any buffered data immediately, terminating with a short or zero-length packet, and
    /// wait for all pending transfers to complete or fail.
    ///
    /// If that is not so yet, go on with [`drain`](Self::drain).
    pub fn flush_end(&mut self) -> (r: Poll<Result<(), IoError>>)
        requires
            old(self)@.wf(),
        ensures
            (final(self)@, r) == old(self)@.submitted_end().drained(),
            final(self)@.wf(),
            final(self)@.is_empty(),
    {
        self.submit_end();
        self.drain(false)
    }
}

} // verus!
