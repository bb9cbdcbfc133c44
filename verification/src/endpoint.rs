//! The queue of transfers of an endpoint.
//!
//! Transfers complete in the order in which they were submitted. Whoever talks to the operating
//! system takes the submitted buffers out of the queue, hands them over, and reports each one back
//! when it is done.

use std::collections::VecDeque;

use vstd::prelude::*;

use crate::transfer::{
    Buffer, BufferModel, Completion, CompletionModel, Direction, TransferError,
};

verus! {

/// Whether a result is there yet.
#[derive(Debug)]
pub enum Poll<T> {
    /// It is.
    Ready(T),
    /// It is not, and asking again makes sense once a transfer has completed.
    Pending,
}

/// What is known of a transfer in the queue.
#[verifier::ext_equal]
pub enum SlotModel {
    Queued(BufferModel),
    InFlight(bool),
    Done(CompletionModel),
}

/// A transfer in the queue.
#[derive(Debug)]
pub enum Slot {
    /// It was submitted and has not been handed to the operating system.
    Queued(Buffer),
    /// The operating system has it; the flag tells whether its cancellation was asked for.
    InFlight(bool),
    /// It is done.
    Done(Completion),
}

impl View for Slot {
    type V = SlotModel;

    open spec fn view(&self) -> SlotModel {
        match self {
            Slot::Queued(buffer) => SlotModel::Queued(buffer@),
            Slot::InFlight(cancelled) => SlotModel::InFlight(*cancelled),
            Slot::Done(completion) => SlotModel::Done(completion@),
        }
    }
}

/// What is known of each of several transfers.
pub open spec fn slot_models(slots: Seq<Slot>) -> Seq<SlotModel> {
    slots.map_values(|s: Slot| s@)
}

/// The system that runs the transfers of an endpoint.
#[derive(Debug, Clone, Copy, PartialEq, Eq, Structural)]
pub enum System {
    /// Linux and Android
    Usbfs,
    /// macOS
    IoKit,
    /// illumos
    Ugen {
        /// The error number for an invalid argument
        inval: u32,
    },
    /// A browser
    WebUsb,
}

/// What is known of an endpoint.
#[verifier::ext_equal]
pub struct EndpointModel {
    pub system: System,
    pub address: u8,
    pub max_packet_size: nat,
    pub queue: Seq<SlotModel>,
}

/// What a transfer that never ran completes with: nothing was transferred. The buffer comes back as
/// the system has it: with WebUSB it is the one that was submitted; otherwise an IN transfer has
/// received nothing, and an OUT transfer has, unless it is one of `ugen`, asked for as much as was in
/// its buffer.
pub open spec fn failed(
    system: System,
    address: u8,
    buffer: BufferModel,
    error: TransferError,
) -> CompletionModel {
    CompletionModel {
        buffer: match (system, Direction::of_address(address)) {
            (System::WebUsb, _) => buffer,
            (_, Direction::In) => BufferModel { data: seq![], ..buffer },
            (System::Ugen { .. }, Direction::Out) => buffer,
            (_, Direction::Out) => BufferModel { requested_len: buffer.data.len(), ..buffer },
        },
        actual_len: 0,
        status: Err(error),
    }
}

fn fail(system: System, address: u8, buffer: Buffer, error: TransferError) -> (r: Completion)
    ensures
        r@ == failed(system, address, buffer@, error),
{
    let mut buffer = buffer;
    match (system, Direction::from_address(address)) {
        (System::WebUsb, _) => {},
        (_, Direction::In) => buffer.clear(),
        (System::Ugen { .. }, Direction::Out) => {},
        (_, Direction::Out) => {
            let len: usize = buffer.len();
            buffer.set_requested_len(len);
        },
    }
    Completion { buffer, actual_len: 0, status: Err(error) }
}

/// The error that a transfer completes with that was refused because of an error. With `ugen` it
/// goes by the error number for an invalid argument, which stands for no particular transfer error.
pub open spec fn refusal(system: System, error: TransferError) -> TransferError {
    match system {
        System::Ugen { inval } => TransferError::Unknown(inval),
        _ => error,
    }
}

/// A transfer that never ran has transferred nothing and comes out with its error and its buffer, which
/// is as large as before. What was to be sent is still in it. What was to be received is not there,
/// except that with WebUSB the buffer is left as it was.
pub proof fn law_failed_transfer_gives_buffer_back(
    system: System,
    address: u8,
    buffer: BufferModel,
    error: TransferError,
)
    ensures
        ({
            let c = failed(system, address, buffer, error);
            &&& c.status == Err::<(), TransferError>(error)
            &&& c.actual_len == 0
            &&& c.buffer.capacity == buffer.capacity
            &&& system == System::WebUsb ==> c.buffer == buffer
            &&& system != System::WebUsb && address >= 128 ==> c.buffer.data.len() == 0
                && c.buffer.requested_len == buffer.requested_len
            &&& address < 128 ==> c.buffer.data == buffer.data
            &&& address < 128 && system is Ugen ==> c.buffer.requested_len == buffer.requested_len
            &&& address < 128 && (system == System::Usbfs || system == System::IoKit)
                ==> c.buffer.requested_len == buffer.data.len()
        }),
        refusal(System::Usbfs, error) == error,
        refusal(System::IoKit, error) == error,
        refusal(System::WebUsb, error) == error,
        forall|inval: u32| #[trigger]
            refusal(System::Ugen { inval }, error) == TransferError::Unknown(inval),
{
}

/// Cancelling leaves a transfer that is done as it is, asks for the cancellation of one that the
/// operating system has, and ends one that it does not have as cancelled.
pub proof fn law_cancelling_ends_transfers(system: System, address: u8, buffer: BufferModel)
    ensures
        forall|c: CompletionModel| #[trigger]
            cancelled(system, address, SlotModel::Done(c)) == SlotModel::Done(c),
        forall|asked: bool| #[trigger]
            cancelled(system, address, SlotModel::InFlight(asked)) == SlotModel::InFlight(true),
        cancelled(system, address, SlotModel::Queued(buffer)) matches SlotModel::Done(c) && c.status
            == Err::<(), TransferError>(TransferError::Cancelled) && c.actual_len == 0
            && c.buffer.capacity == buffer.capacity && c == failed(
            system,
            address,
            buffer,
            TransferError::Cancelled,
        ),
{
}

/// The transfers that are to be cancelled with the operating system are exactly those that it has, and
/// a later one comes before an earlier one.
pub proof fn law_cancel_order_is_exact(queue: Seq<SlotModel>, order: Seq<usize>)
    requires
        is_cancel_order(queue, order),
    ensures
        forall|k: int|
            #![trigger queue[k]]
            0 <= k < queue.len() ==> (queue[k] is InFlight <==> exists|i: int|
                0 <= i < order.len() && #[trigger] order[i] == k),
        forall|i: int, j: int|
            0 <= i < j < order.len() ==> (#[trigger] order[i]) > (#[trigger] order[j]),
        forall|i: int| 0 <= i < order.len() ==> (#[trigger] order[i]) < queue.len(),
{
}

/// The first transfer that has not been handed over yet, or the length of the queue.
pub open spec fn first_queued(queue: Seq<SlotModel>) -> int
    decreases queue.len(),
{
    if queue.len() == 0 || queue[0] is Queued {
        0
    } else {
        1 + first_queued(queue.drop_first())
    }
}

proof fn lemma_first_queued(queue: Seq<SlotModel>, at: int)
    requires
        0 <= at <= queue.len(),
        forall|k: int| 0 <= k < at ==> !(#[trigger] queue[k] is Queued),
        at < queue.len() ==> queue[at] is Queued,
    ensures
        first_queued(queue) == at,
    decreases queue.len(),
{
    if at > 0 {
        assert(!(queue[0] is Queued));
        assert forall|k: int| 0 <= k < at - 1 implies !(#[trigger] queue.drop_first()[k] is Queued) by {
            assert(queue.drop_first()[k] == queue[k + 1]);
        }
        lemma_first_queued(queue.drop_first(), at - 1);
    }
}

/// Transfers are handed over in the order in which they were submitted: all before the first that
/// has not been handed over were.
pub proof fn law_first_queued_is_first(queue: Seq<SlotModel>)
    ensures
        0 <= first_queued(queue) <= queue.len(),
        first_queued(queue) < queue.len() ==> queue[first_queued(queue)] is Queued,
        forall|k: int| 0 <= k < first_queued(queue) ==> !(#[trigger] queue[k] is Queued),
    decreases queue.len(),
{
    if queue.len() > 0 && !(queue[0] is Queued) {
        law_first_queued_is_first(queue.drop_first());
        assert forall|k: int| 0 <= k < first_queued(queue) implies !(
        #[trigger] queue[k] is Queued) by {
            if k > 0 {
                assert(queue.drop_first()[k - 1] == queue[k]);
            }
        }
    }
}

/// What becomes of a transfer when its cancellation is asked for.
pub open spec fn cancelled(system: System, address: u8, slot: SlotModel) -> SlotModel {
    match slot {
        SlotModel::Queued(buffer) => SlotModel::Done(
            failed(system, address, buffer, TransferError::Cancelled),
        ),
        SlotModel::InFlight(_) => SlotModel::InFlight(true),
        SlotModel::Done(completion) => SlotModel::Done(completion),
    }
}

/// Whether `order` names each transfer that the operating system has, the last one first.
pub open spec fn is_cancel_order(queue: Seq<SlotModel>, order: Seq<usize>) -> bool {
    &&& forall|i: int, j: int| 0 <= i < j < order.len() ==> #[trigger] order[i] > #[trigger] order[j]
    &&& forall|i: int|
        0 <= i < order.len() ==> (#[trigger] order[i]) < queue.len() && queue[order[i] as int]
            is InFlight
    &&& forall|k: int|
        0 <= k < queue.len() && (#[trigger] queue[k]) is InFlight ==> exists|i: int|
            0 <= i < order.len() && order[i] == k
}

/// An endpoint and its queue of transfers.
#[derive(Debug)]
pub struct Endpoint {
    system: System,
    address: u8,
    max_packet_size: usize,
    queue: VecDeque<Slot>,
}

impl View for Endpoint {
    type V = EndpointModel;

    closed spec fn view(&self) -> EndpointModel {
        EndpointModel {
            system: self.system,
            address: self.address,
            max_packet_size: self.max_packet_size as nat,
            queue: slot_models(self.queue@),
        }
    }
}

impl Endpoint {
    /// An endpoint with no transfers.
    pub fn new(system: System, address: u8, max_packet_size: usize) -> (r: Endpoint)
        ensures
            r@ == (EndpointModel {
                system,
                address,
                max_packet_size: max_packet_size as nat,
                queue: seq![],
            }),
    {
        let r = Endpoint { system, address, max_packet_size, queue: VecDeque::new() };
        assert(r@.queue =~= seq![]);
        r
    }

    /// Get the endpoint address.
    pub fn endpoint_address(&self) -> (r: u8)
        ensures
            r == self@.address,
    {
        self.address
    }

    /// Get the maximum packet size of the endpoint.
    pub fn max_packet_size(&self) -> (r: usize)
        ensures
            r == self@.max_packet_size,
    {
        self.max_packet_size
    }

    /// Get the number of transfers that have been submitted and have not yet been returned as
    /// completed.
    pub fn pending(&self) -> (r: usize)
        ensures
            r == self@.queue.len(),
    {
        self.queue.len()
    }

    /// Allocate a buffer for use on this endpoint.
    pub fn allocate(&self, len: usize) -> (r: Buffer)
        requires
            len <= u32::MAX,
        ensures
            r@ == BufferModel::empty(len as nat),
            r@.data.len() == 0,
            r@.requested_len == len,
            r@.capacity == len,
    {
        Buffer::new(len)
    }

    /// Submit a transfer on the endpoint.
    pub fn submit(&mut self, data: Buffer)
        ensures
            final(self)@ == (EndpointModel {
                queue: old(self)@.queue.push(SlotModel::Queued(data@)),
                ..old(self)@
            }),
    {
        self.queue.push_back(Slot::Queued(data));
        assert(self@.queue =~= old(self)@.queue.push(SlotModel::Queued(data@)));
    }

    /// Put a transfer in the queue that cannot be submitted because of its arguments, so that the
    /// error comes out in its turn.
    pub fn submit_err(&mut self, data: Buffer, error: TransferError)
        requires
            old(self)@.system != System::WebUsb ==> error == TransferError::InvalidArgument,
        ensures
            final(self)@ == (EndpointModel {
                queue: old(self)@.queue.push(
                    SlotModel::Done(
                        failed(
                            old(self)@.system,
                            old(self)@.address,
                            data@,
                            refusal(old(self)@.system, error),
                        ),
                    ),
                ),
                ..old(self)@
            }),
    {
        let error = match self.system {
            System::Ugen { inval } => TransferError::Unknown(inval),
            _ => error,
        };
        let completion = fail(self.system, self.address, data, error);
        self.queue.push_back(Slot::Done(completion));
        assert(self@.queue =~= old(self)@.queue.push(SlotModel::Done(completion@)));
    }

    /// Take the next transfer that is to be handed to the operating system.
    pub fn next_queued(&mut self) -> (r: Option<(usize, Buffer)>)
        ensures
            r is None <==> first_queued(old(self)@.queue) == old(self)@.queue.len(),
            r is None ==> final(self)@ == old(self)@,
            r matches Some((at, buffer)) ==> {
                &&& at == first_queued(old(self)@.queue)
                &&& at < old(self)@.queue.len()
                &&& old(self)@.queue[at as int] == SlotModel::Queued(buffer@)
                &&& final(self)@ == (EndpointModel {
                    queue: old(self)@.queue.update(at as int, SlotModel::InFlight(false)),
                    ..old(self)@
                })
            },
    {
        let mut at: usize = 0;
        while at < self.queue.len()
            invariant
                at <= self.queue@.len(),
                *self == *old(self),
                forall|k: int| 0 <= k < at ==> !(#[trigger] self@.queue[k] is Queued),
            decreases self.queue@.len() - at,
        {
            assert(self@.queue[at as int] == self.queue@[at as int]@);
            if let Slot::Queued(_) = &self.queue[at] {
                let ghost before = self@.queue;
                proof {
                    lemma_first_queued(before, at as int);
                }
                let taken = self.queue.remove(at);
                self.queue.insert(at, Slot::InFlight(false));
                assert(self@.queue =~= before.update(at as int, SlotModel::InFlight(false)));
                if let Some(Slot::Queued(buffer)) = taken {
                    return Some((at, buffer));
                }
                return None;
            }
            at = at + 1;
        }
        proof {
            lemma_first_queued(self@.queue, at as int);
        }
        None
    }

    /// Record that the operating system is done with a transfer.
    pub fn complete(&mut self, at: usize, completion: Completion)
        requires
            at < old(self)@.queue.len(),
            old(self)@.queue[at as int] is InFlight,
        ensures
            final(self)@ == (EndpointModel {
                queue: old(self)@.queue.update(at as int, SlotModel::Done(completion@)),
                ..old(self)@
            }),
    {
        let _ = self.queue.remove(at);
        self.queue.insert(at, Slot::Done(completion));
        assert(self@.queue =~= old(self)@.queue.update(
            at as int,
            SlotModel::Done(completion@),
        ));
    }

    /// Take the oldest transfer, if it is done.
    pub fn poll_next_complete(&mut self) -> (r: Poll<Completion>)
        requires
            old(self)@.queue.len() > 0,
        ensures
            match r {
                Poll::Ready(c) => old(self)@.queue[0] == SlotModel::Done(c@) && final(self)@ == (
                EndpointModel { queue: old(self)@.queue.drop_first(), ..old(self)@ }),
                Poll::Pending => !(old(self)@.queue[0] is Done) && final(self)@ == old(self)@,
            },
    {
        assert(self@.queue[0] == self.queue@[0]@);
        if let Slot::Done(_) = &self.queue[0] {
            let taken = self.queue.pop_front();
            assert(self@.queue =~= old(self)@.queue.drop_first());
            if let Some(Slot::Done(c)) = taken {
                return Poll::Ready(c);
            }
        }
        Poll::Pending
    }

    /// Request cancellation of all pending transfers.
    ///
    /// The result names those that the operating system has, in the order in which they are to be
    /// cancelled: the last one first, so that subsequent transfers can't complete out of order
    /// while going through them.
    pub fn cancel_all(&mut self) -> (r: Vec<usize>)
        ensures
            is_cancel_order(old(self)@.queue, r@),
            final(self)@.system == old(self)@.system,
            final(self)@.address == old(self)@.address,
            final(self)@.max_packet_size == old(self)@.max_packet_size,
            final(self)@.queue == old(self)@.queue.map_values(
                |s: SlotModel| cancelled(old(self)@.system, old(self)@.address, s),
            ),
    {
        let ghost before = self@.queue;
        let system = self.system;
        let address: u8 = self.address;
        let ghost change = |s: SlotModel| cancelled(system, address, s);
        let mut order: Vec<usize> = Vec::new();
        let mut at: usize = self.queue.len();
        assert(self@.queue =~= before.take(at as int) + before.skip(at as int).map_values(change));
        while at > 0
            invariant
                at <= before.len(),
                system == old(self)@.system,
                system == self.system,
                address == old(self)@.address,
                address == self.address,
                self.max_packet_size == old(self).max_packet_size,
                before == old(self)@.queue,
                change == (|s: SlotModel| cancelled(system, address, s)),
                self@.queue == before.take(at as int) + before.skip(at as int).map_values(change),
                forall|i: int, j: int|
                    0 <= i < j < order@.len() ==> #[trigger] order@[i] > #[trigger] order@[j],
                forall|i: int|
                    0 <= i < order@.len() ==> at <= (#[trigger] order@[i]) < before.len()
                        && before[order@[i] as int] is InFlight,
                forall|k: int|
                    at <= k < before.len() && (#[trigger] before[k]) is InFlight ==> exists|i: int|
                        0 <= i < order@.len() && order@[i] == k,
            decreases at,
        {
            at = at - 1;
            let ghost queue = self.queue@;
            let ghost previous = self@.queue;
            assert(queue.len() == self@.queue.len() == before.len());
            assert(self@.queue[at as int] == before[at as int]);
            assert(queue[at as int]@ == before[at as int]);
            let ghost listed = order@;
            let taken = self.queue.remove(at);
            if let Some(slot) = taken {
                let slot = match slot {
                    Slot::Queued(buffer) => Slot::Done(
                        fail(system, address, buffer, TransferError::Cancelled),
                    ),
                    Slot::InFlight(_) => {
                        order.push(at);
                        Slot::InFlight(true)
                    },
                    Slot::Done(completion) => Slot::Done(completion),
                };
                assert(slot@ == cancelled(system, address, before[at as int]));
                self.queue.insert(at, slot);
                assert(self.queue@ =~= queue.update(at as int, slot));
                let ghost target = before.take(at as int) + before.skip(at as int).map_values(
                    change,
                );
                assert forall|k: int| 0 <= k < before.len() implies self@.queue[k]
                    == #[trigger] target[k] by {
                    assert(previous[k] == queue[k]@);
                    if k < at {
                        assert(previous[k] == before[k]);
                    } else if k > at {
                        assert(previous[k] == change(before[k]));
                        assert(target[k] == change(before[k]));
                    }
                }
                assert(self@.queue =~= target);
                assert forall|k: int|
                    at <= k < before.len() && (#[trigger] before[k]) is InFlight implies exists|
                    i: int,
                |
                    0 <= i < order@.len() && order@[i] == k by {
                    if k == at {
                        assert(order@[order@.len() - 1] == k);
                    } else {
                        let i = choose|i: int| 0 <= i < listed.len() && listed[i] == k;
                        assert(order@[i] == k);
                    }
                }
            }
        }
        assert(before.take(0) + before.skip(0).map_values(change) =~= before.map_values(change));
        order
    }
}

} // verus!
