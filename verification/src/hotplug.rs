//! Notifications when USB devices are connected or disconnected from the system.

use std::collections::VecDeque;

use vstd::prelude::*;

use crate::endpoint::Poll;
use crate::enumeration::{DeviceId, DeviceInfo};
use crate::error::Error;

verus! {

/// A device was connected or disconnected.
pub enum HotplugEvent {
    /// A device has been connected.
    Connected(DeviceInfo),
    /// A device has been disconnected.
    Disconnected(DeviceId),
}

/// Stream of device connection / disconnection events, from what the platform has for it.
pub struct HotplugWatch<P>(pub P);

/// Get a stream that yields an event when a USB device is connected or disconnected from the
/// system, once the platform has begun to watch for that, or could not.
pub fn watch_devices<P>(platform: Result<P, Error>) -> (r: Result<HotplugWatch<P>, Error>)
    ensures
        r == match platform {
            Ok(platform) => Ok::<HotplugWatch<P>, Error>(HotplugWatch(platform)),
            Err(e) => Err(e),
        },
{
    match platform {
        Ok(platform) => Ok(HotplugWatch(platform)),
        Err(e) => Err(e),
    }
}

/// What a stream of events that can be cancelled gives: its end once it was cancelled, else what
/// the platform has.
pub fn cancellable_next(cancelled: bool, next: Poll<HotplugEvent>) -> (r: Poll<
    Option<HotplugEvent>,
>)
    ensures
        r == if cancelled {
            Poll::Ready(None)
        } else {
            match next {
                Poll::Ready(event) => Poll::Ready(Some(event)),
                Poll::Pending => Poll::Pending,
            }
        },
{
    if cancelled {
        return Poll::Ready(None);
    }
    match next {
        Poll::Ready(event) => Poll::Ready(Some(event)),
        Poll::Pending => Poll::Pending,
    }
}

/// Events that have come in and have not been taken yet, and whether somebody waits for one.
pub struct EventQueue {
    events: VecDeque<HotplugEvent>,
    waiting: bool,
}

impl EventQueue {
    /// The events, the oldest first.
    pub closed spec fn events(&self) -> Seq<HotplugEvent> {
        self.events@
    }

    /// Whether somebody waits for an event.
    pub closed spec fn waiting(&self) -> bool {
        self.waiting
    }

    /// A queue with no events that nobody waits for.
    pub fn new() -> (r: EventQueue)
        ensures
            r.events() == Seq::<HotplugEvent>::empty(),
            !r.waiting(),
    {
        EventQueue { events: VecDeque::new(), waiting: false }
    }

    /// Add an event; whether somebody waits and is to be woken.
    pub fn push(&mut self, event: HotplugEvent) -> (r: bool)
        ensures
            final(self).events() == old(self).events().push(event),
            !final(self).waiting(),
            r == old(self).waiting(),
    {
        self.events.push_back(event);
        let wake: bool = self.waiting;
        self.waiting = false;
        wake
    }

    /// Wake whoever waits; whether somebody does.
    pub fn wake(&mut self) -> (r: bool)
        ensures
            final(self).events() == old(self).events(),
            !final(self).waiting(),
            r == old(self).waiting(),
    {
        let wake: bool = self.waiting;
        self.waiting = false;
        wake
    }

    /// Take the oldest event. Whoever asked is woken at the next one, even if there is one now.
    pub fn wait_and_poll(&mut self) -> (r: Poll<HotplugEvent>)
        ensures
            final(self).waiting(),
            match r {
                Poll::Ready(event) => old(self).events().len() > 0 && event == old(
                    self).events()[0] && final(self).events() == old(self).events().drop_first(),
                Poll::Pending => old(self).events().len() == 0 && final(self).events() == old(
                    self).events(),
            },
    {
        self.waiting = true;
        self.poll_next()
    }

    /// Take the oldest event. If there is none, whoever asked waits for the next one.
    pub fn poll_next(&mut self) -> (r: Poll<HotplugEvent>)
        ensures
            match r {
                Poll::Ready(event) => old(self).events().len() > 0 && event == old(
                    self).events()[0] && final(self).events() == old(self).events().drop_first()
                    && final(self).waiting() == old(self).waiting(),
                Poll::Pending => old(self).events().len() == 0 && final(self).events() == old(
                    self).events() && final(self).waiting(),
            },
    {
        match self.events.pop_front() {
            Some(event) => {
                assert(self.events@ =~= old(self).events@.drop_first());
                Poll::Ready(event)
            },
            None => {
                self.waiting = true;
                Poll::Pending
            },
        }
    }
}

} // verus!
