//! Hotplug events from IOKit.

use vstd::prelude::*;

use crate::endpoint::Poll;
use crate::enumeration::{DeviceId, DeviceInfo, PlatformDeviceId};
use crate::hotplug::HotplugEvent;
use crate::platform::slots::{self, Slots};

verus! {

/// What is to be done next to find an event.
pub enum HotplugStep {
    /// Take the next service that was connected.
    NextMatched,
    /// Take the next service that was terminated.
    NextTerminated,
    /// This is the outcome.
    Done(Poll<HotplugEvent>),
}

/// Go on after a service that was connected was taken, and probed, if there was one. Those that
/// cannot be probed are passed over.
pub fn after_matched(service: Option<Option<DeviceInfo>>) -> (r: HotplugStep)
    ensures
        r == match service {
            Some(Some(dev)) => HotplugStep::Done(Poll::Ready(HotplugEvent::Connected(dev))),
            Some(None) => HotplugStep::NextMatched,
            None => HotplugStep::NextTerminated,
        },
{
    match service {
        Some(Some(dev)) => HotplugStep::Done(Poll::Ready(HotplugEvent::Connected(dev))),
        Some(None) => HotplugStep::NextMatched,
        None => HotplugStep::NextTerminated,
    }
}

/// Finish after a service that was terminated was taken, and its registry ID with it, if there was
/// one.
pub fn after_terminated(service: Option<Option<u64>>) -> (r: Poll<HotplugEvent>)
    ensures
        r == match service {
            Some(Some(registry_id)) => Poll::Ready(
                HotplugEvent::Disconnected(DeviceId(PlatformDeviceId::RegistryEntry(registry_id))),
            ),
            _ => Poll::Pending,
        },
{
    match service {
        Some(Some(registry_id)) => Poll::Ready(
            HotplugEvent::Disconnected(DeviceId(PlatformDeviceId::RegistryEntry(registry_id))),
        ),
        _ => Poll::Pending,
    }
}

/// Who waits for events, by number: whether there is somebody to wake.
pub struct Wakers {
    slots: Slots,
}

impl View for Wakers {
    type V = Map<usize, bool>;

    closed spec fn view(&self) -> Map<usize, bool> {
        self.slots@
    }
}

impl Wakers {
    /// Nobody waits.
    pub fn new() -> (r: Wakers)
        ensures
            r@ == Map::<usize, bool>::empty(),
    {
        Wakers { slots: Slots::new() }
    }

    /// A new number, under which nobody waits yet.
    pub fn insert(&mut self) -> (key: usize)
        requires
            slots::has_room(old(self)@),
        ensures
            !old(self)@.dom().contains(key),
            final(self)@ == old(self)@.insert(key, false),
    {
        self.slots.insert(false)
    }

    /// Somebody waits under a number.
    pub fn register(&mut self, key: usize)
        requires
            old(self)@.dom().contains(key),
        ensures
            final(self)@ == old(self)@.insert(key, true),
    {
        let _ = self.slots.replace(key, true);
    }

    /// An event came for a number; whether there is somebody to wake. They are woken once, and not
    /// at all if the number is not in use any more.
    pub fn callback(&mut self, key: usize) -> (r: bool)
        ensures
            r == (old(self)@.dom().contains(key) && old(self)@[key]),
            old(self)@.dom().contains(key) ==> final(self)@ == old(self)@.insert(key, false),
            !old(self)@.dom().contains(key) ==> final(self)@ == old(self)@,
    {
        match self.slots.replace(key, false) {
            Some(waiting) => waiting,
            None => false,
        }
    }

    /// A number is not used any more.
    pub fn remove(&mut self, key: usize)
        requires
            old(self)@.dom().contains(key),
        ensures
            final(self)@ == old(self)@.remove(key),
    {
        let _ = self.slots.remove(key);
    }
}

} // verus!
