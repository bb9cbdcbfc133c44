//! Telling apart the events of the event loop.

use vstd::prelude::*;

use crate::platform::slots::{self, Slots};

verus! {

/// What an event is about.
#[derive(Clone, Copy, Debug, PartialEq, Eq, Structural)]
pub enum Tag {
    /// Transfers of a device have completed.
    Device(usize),
    /// The timer of a device has expired.
    DeviceTimer(usize),
    /// A file descriptor that somebody waits for is ready.
    Waker(usize),
}

const DEVICE: u64 = 1;

const DEVICE_TIMER: u64 = 2;

const WAKER: u64 = 3;

/// The number that goes with an event: the ID, and in the low three bits what kind of ID it is.
proof fn lemma_tag(id: u64, tag: u64)
    by (bit_vector)
    requires
        id < 0x2000_0000_0000_0000,
        tag < 8,
    ensures
        (id << 3 | tag) == 8 * id + tag,
        (id << 3 | tag) >> 3 == id,
        (id << 3 | tag) & 0b111 == tag,
{
}

proof fn lemma_data(data: u64)
    by (bit_vector)
    ensures
        data >> 3 == data / 8,
        data & 0b111 == data % 8,
{
}

impl Tag {
    /// The ID in the tag.
    pub open spec fn id(self) -> usize {
        match self {
            Tag::Device(id) => id,
            Tag::DeviceTimer(id) => id,
            Tag::Waker(id) => id,
        }
    }

    /// The number for what kind of ID it is.
    pub open spec fn kind(self) -> u64 {
        match self {
            Tag::Device(_) => 1,
            Tag::DeviceTimer(_) => 2,
            Tag::Waker(_) => 3,
        }
    }

    /// The number that goes with an event. The ID has to leave three bits free.
    pub fn as_event_data(&self) -> (r: u64)
        requires
            self.id() < 0x2000_0000_0000_0000,
        ensures
            r == 8 * self.id() + self.kind(),
            *self matches Tag::Device(id) ==> r == 8 * id + 1,
            *self matches Tag::DeviceTimer(id) ==> r == 8 * id + 2,
            *self matches Tag::Waker(id) ==> r == 8 * id + 3,
    {
        let (tag, id): (u64, usize) = match *self {
            Tag::Device(id) => (DEVICE, id),
            Tag::DeviceTimer(id) => (DEVICE_TIMER, id),
            Tag::Waker(id) => (WAKER, id),
        };
        proof {
            lemma_tag(id as u64, tag);
        }
        (id as u64) << 3 | tag
    }

    /// What an event is about, by the number that goes with it. The number has to be one that
    /// [`as_event_data`](Tag::as_event_data) gave.
    pub fn from_event_data(data: u64) -> (r: Tag)
        requires
            1 <= data % 8 <= 3,
            data / 8 <= usize::MAX,
        ensures
            r.id() == data / 8,
            r.kind() == data % 8,
            data % 8 == 1 ==> r == Tag::Device((data / 8) as usize),
            data % 8 == 2 ==> r == Tag::DeviceTimer((data / 8) as usize),
            data % 8 == 3 ==> r == Tag::Waker((data / 8) as usize),
    {
        proof {
            lemma_data(data);
        }
        let id: usize = (data >> 3) as usize;
        let tag: u64 = data & 0b111;
        if tag == DEVICE {
            Tag::Device(id)
        } else if tag == DEVICE_TIMER {
            Tag::DeviceTimer(id)
        } else {
            Tag::Waker(id)
        }
    }
}

/// An event is about what it was registered for: the number that goes with it leads back to the
/// same tag, and to no other.
pub proof fn law_tag_comes_back(tag: Tag, back: Tag)
    requires
        tag.id() < 0x2000_0000_0000_0000,
        back.id() == (8 * tag.id() + tag.kind()) / 8,
        back.kind() == (8 * tag.id() + tag.kind()) % 8,
    ensures
        back == tag,
        1 <= (8 * tag.id() + tag.kind()) % 8 <= 3,
{
}

/// Those who wait for file descriptors, by ID: whether there is somebody to wake.
pub struct Waiters {
    slots: Slots,
}

impl View for Waiters {
    type V = Map<usize, bool>;

    closed spec fn view(&self) -> Map<usize, bool> {
        self.slots@
    }
}

impl Waiters {
    /// Nobody waits.
    pub fn new() -> (r: Waiters)
        ensures
            r@ == Map::<usize, bool>::empty(),
    {
        Waiters { slots: Slots::new() }
    }

    /// Add a file descriptor that nobody waits for yet; its ID.
    pub fn insert(&mut self) -> (id: usize)
        requires
            slots::has_room(old(self)@),
        ensures
            !old(self)@.dom().contains(id),
            final(self)@ == old(self)@.insert(id, false),
    {
        self.slots.insert(false)
    }

    /// Somebody waits for a file descriptor.
    pub fn register(&mut self, id: usize)
        requires
            old(self)@.dom().contains(id),
        ensures
            final(self)@ == old(self)@.insert(id, true),
    {
        let _ = self.slots.replace(id, true);
    }

    /// A file descriptor is ready; whether there is somebody to wake. Whoever it was has to
    /// register again.
    pub fn ready(&mut self, id: usize) -> (wake: bool)
        ensures
            wake == (old(self)@.dom().contains(id) && old(self)@[id]),
            final(self)@ == if old(self)@.dom().contains(id) {
                old(self)@.insert(id, false)
            } else {
                old(self)@
            },
    {
        match self.slots.replace(id, false) {
            Some(waiting) => waiting,
            None => false,
        }
    }

    /// Remove a file descriptor.
    pub fn remove(&mut self, id: usize)
        requires
            old(self)@.dom().contains(id),
        ensures
            final(self)@ == old(self)@.remove(id),
    {
        let _ = self.slots.remove(id);
    }
}

} // verus!
