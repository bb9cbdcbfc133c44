//! The timeouts of the transfers of a device.
//!
//! Times are in nanoseconds from any fixed point.

use vstd::prelude::*;

use crate::platform::errno::{Errno, ErrnoKind};

verus! {

/// When a transfer is to be cancelled, and which one.
pub type TimeoutEntry = (u64, u64);

/// Whether one entry comes before another: by time, and at the same time by transfer.
pub open spec fn earlier(a: TimeoutEntry, b: TimeoutEntry) -> bool {
    a.0 < b.0 || (a.0 == b.0 && a.1 < b.1)
}

/// Whether entries are in order, and none occurs twice.
pub open spec fn in_order(entries: Seq<TimeoutEntry>) -> bool {
    forall|i: int, j: int|
        0 <= i < j < entries.len() ==> earlier(#[trigger] entries[i], #[trigger] entries[j])
}

/// How many entries have come due by `now`.
pub open spec fn due(entries: Seq<TimeoutEntry>, now: u64) -> nat
    decreases entries.len(),
{
    if entries.len() > 0 && entries[0].0 <= now {
        1 + due(entries.drop_first(), now)
    } else {
        0
    }
}

/// What a timer is set to: seconds and nanoseconds, or 0 for off.
#[derive(Clone, Copy, Debug, PartialEq, Eq, Structural)]
pub struct TimerSetting {
    pub tv_sec: u64,
    pub tv_nsec: u64,
}

/// What the timer is set to for the first entry, or off if there is none. For an entry that is
/// overdue it expires at once.
pub open spec fn timer_for(entries: Seq<TimeoutEntry>, now: u64) -> TimerSetting {
    if entries.len() == 0 {
        TimerSetting { tv_sec: 0, tv_nsec: 0 }
    } else if entries[0].0 < now {
        TimerSetting { tv_sec: 0, tv_nsec: 1 }
    } else {
        let left = entries[0].0 - now;
        TimerSetting { tv_sec: (left / 1_000_000_000) as u64, tv_nsec: (left % 1_000_000_000) as u64 }
    }
}

/// What is to be done once completed transfers were asked for.
#[derive(Clone, Copy, Debug, PartialEq, Eq, Structural)]
pub enum ReapAction {
    /// Complete a transfer, and set the timer if it had a timeout.
    Complete(u64, Option<TimerSetting>),
    /// Nothing; there is no completed transfer.
    Nothing,
    /// Ignore the device from now on; it is disconnected.
    Unregister,
}

/// The timeouts of the transfers of a device.
#[derive(Debug)]
pub struct Timeouts {
    entries: Vec<TimeoutEntry>,
}

impl View for Timeouts {
    type V = Seq<TimeoutEntry>;

    /// The entries in order.
    closed spec fn view(&self) -> Seq<TimeoutEntry> {
        self.entries@
    }
}

fn is_earlier(a: TimeoutEntry, b: TimeoutEntry) -> (r: bool)
    ensures
        r == earlier(a, b),
{
    a.0 < b.0 || (a.0 == b.0 && a.1 < b.1)
}

impl Timeouts {
    /// No timeouts.
    pub fn new() -> (r: Timeouts)
        ensures
            r@ == Seq::<TimeoutEntry>::empty(),
            in_order(r@),
    {
        Timeouts { entries: Vec::new() }
    }

    /// The first place whose entry does not come before `entry`.
    fn place(&self, entry: TimeoutEntry) -> (at: usize)
        requires
            in_order(self@),
        ensures
            at <= self@.len(),
            forall|k: int| 0 <= k < at ==> earlier(#[trigger] self@[k], entry),
            forall|k: int| at <= k < self@.len() ==> !earlier(#[trigger] self@[k], entry),
    {
        let mut at: usize = 0;
        while at < self.entries.len() && is_earlier(self.entries[at], entry)
            invariant
                at <= self.entries@.len(),
                forall|k: int| 0 <= k < at ==> earlier(#[trigger] self.entries@[k], entry),
            decreases self.entries@.len() - at,
        {
            at = at + 1;
        }
        at
    }

    /// Add an entry.
    pub fn insert(&mut self, deadline: u64, urb: u64)
        requires
            in_order(old(self)@),
        ensures
            in_order(final(self)@),
            final(self)@.to_set() == old(self)@.to_set().insert((deadline, urb)),
    {
        let entry: TimeoutEntry = (deadline, urb);
        let at: usize = self.place(entry);
        let ghost before = self@;
        if at < self.entries.len() && !is_earlier(entry, self.entries[at]) {
            proof {
                assert(before[at as int] == entry);
                assert(before.to_set().contains(entry));
                assert(before.to_set().insert(entry) =~= before.to_set());
            }
            return;
        }
        self.entries.insert(at, entry);
        proof {
            let after = self@;
            assert(after =~= before.insert(at as int, entry));
            assert forall|i: int, j: int| 0 <= i < j < after.len() implies earlier(
                #[trigger] after[i],
                #[trigger] after[j],
            ) by {
                if at < before.len() {
                    assert(earlier(entry, before[at as int]));
                }
                if i >= at && i > at {
                    assert(after[i] == before[i - 1]);
                }
                if j > at {
                    assert(after[j] == before[j - 1]);
                    if j - 1 > at {
                        assert(earlier(before[at as int], before[j - 1]));
                    }
                }
            }
            assert forall|e: TimeoutEntry|
                after.to_set().contains(e) == before.to_set().insert(entry).contains(e) by {
                if before.contains(e) {
                    let k = choose|k: int| 0 <= k < before.len() && before[k] == e;
                    if k < at {
                        assert(after[k] == e);
                    } else {
                        assert(after[k + 1] == e);
                    }
                }
                assert(after[at as int] == entry);
                if after.contains(e) && e != entry {
                    let k = choose|k: int| 0 <= k < after.len() && after[k] == e;
                    if k < at {
                        assert(before[k] == e);
                    } else {
                        assert(before[k - 1] == e);
                    }
                }
            }
            assert(after.to_set() =~= before.to_set().insert(entry));
        }
    }

    /// Remove an entry, if it is there.
    pub fn remove(&mut self, deadline: u64, urb: u64)
        requires
            in_order(old(self)@),
        ensures
            in_order(final(self)@),
            final(self)@.to_set() == old(self)@.to_set().remove((deadline, urb)),
    {
        let entry: TimeoutEntry = (deadline, urb);
        let at: usize = self.place(entry);
        let ghost before = self@;
        if at < self.entries.len() && !is_earlier(entry, self.entries[at]) {
            let _ = self.entries.remove(at);
            proof {
                let after = self@;
                assert(after =~= before.remove(at as int));
                assert(before[at as int] == entry);
                assert forall|i: int, j: int| 0 <= i < j < after.len() implies earlier(
                    #[trigger] after[i],
                    #[trigger] after[j],
                ) by {
                    let a = if i < at {
                        i
                    } else {
                        i + 1
                    };
                    let b = if j < at {
                        j
                    } else {
                        j + 1
                    };
                    assert(earlier(before[a], before[b]));
                }
                assert forall|e: TimeoutEntry|
                    after.to_set().contains(e) == before.to_set().remove(entry).contains(e) by {
                    if after.contains(e) {
                        let k = choose|k: int| 0 <= k < after.len() && after[k] == e;
                        let b = if k < at {
                            k
                        } else {
                            k + 1
                        };
                        assert(before[b] == e);
                        if b < at {
                            assert(earlier(before[b], before[at as int]));
                        } else {
                            assert(earlier(before[at as int], before[b]));
                        }
                    }
                    if before.contains(e) && e != entry {
                        let k = choose|k: int| 0 <= k < before.len() && before[k] == e;
                        if k < at {
                            assert(after[k] == e);
                        } else {
                            assert(after[k - 1] == e);
                        }
                    }
                }
                assert(after.to_set() =~= before.to_set().remove(entry));
            }
        } else {
            proof {
                if before.contains(entry) {
                    let k = choose|k: int| 0 <= k < before.len() && before[k] == entry;
                    assert(!earlier(before[k], entry));
                    assert(k >= at);
                    if k > at {
                        assert(earlier(before[at as int], before[k]));
                    }
                    assert(false);
                }
                assert(before.to_set().remove(entry) =~= before.to_set());
            }
        }
    }

    /// What the timer is to be set to.
    pub fn timer(&self, now: u64) -> (r: TimerSetting)
        ensures
            r == timer_for(self@, now),
    {
        if self.entries.len() == 0 {
            TimerSetting { tv_sec: 0, tv_nsec: 0 }
        } else {
            let deadline: u64 = self.entries[0].0;
            if deadline < now {
                TimerSetting { tv_sec: 0, tv_nsec: 1 }
            } else {
                let left: u64 = deadline - now;
                TimerSetting { tv_sec: left / 1_000_000_000, tv_nsec: left % 1_000_000_000 }
            }
        }
    }

    /// Take the transfers whose time has come, the one that is longest overdue first.
    pub fn take_due(&mut self, now: u64) -> (r: Vec<u64>)
        requires
            in_order(old(self)@),
        ensures
            r@ == old(self)@.take(due(old(self)@, now) as int).map_values(|e: TimeoutEntry| e.1),
            final(self)@ == old(self)@.skip(due(old(self)@, now) as int),
            in_order(final(self)@),
    {
        let ghost start = self@;
        let mut urbs: Vec<u64> = Vec::new();
        proof {
            assert(start.take(0).map_values(|e: TimeoutEntry| e.1) =~= seq![]);
            assert(start.skip(0) =~= start);
        }
        while self.entries.len() > 0 && self.entries[0].0 <= now
            invariant
                urbs@.len() <= start.len(),
                self@ == start.skip(urbs@.len() as int),
                urbs@ == start.take(urbs@.len() as int).map_values(|e: TimeoutEntry| e.1),
                due(start, now) == urbs@.len() + due(self@, now),
                in_order(start),
            decreases self@.len(),
        {
            let ghost here = self@;
            let (_, urb) = self.entries.remove(0);
            let ghost n = urbs@.len() as int;
            urbs.push(urb);
            proof {
                assert(self@ =~= here.drop_first());
                assert(self@ =~= start.skip(n + 1));
                assert(urbs@ =~= start.take(n + 1).map_values(|e: TimeoutEntry| e.1));
            }
        }
        proof {
            let n = urbs@.len() as int;
            assert forall|i: int, j: int| 0 <= i < j < self@.len() implies earlier(
                #[trigger] self@[i],
                #[trigger] self@[j],
            ) by {
                assert(earlier(start[n + i], start[n + j]));
            }
        }
        urbs
    }

    /// What is to be done with what asking for completed transfers came to: a transfer, with its
    /// timeout if it has one, or an error.
    pub fn handle_reap(&mut self, reaped: Result<(u64, Option<u64>), Errno>, now: u64) -> (r:
        ReapAction)
        requires
            in_order(old(self)@),
        ensures
            in_order(final(self)@),
            match reaped {
                Ok((urb, Some(deadline))) => {
                    &&& final(self)@.to_set() == old(self)@.to_set().remove((deadline, urb))
                    &&& r == ReapAction::Complete(urb, Some(timer_for(final(self)@, now)))
                },
                Ok((urb, None)) => {
                    &&& final(self)@ == old(self)@
                    &&& r == ReapAction::Complete(urb, None)
                },
                Err(e) => {
                    &&& final(self)@ == old(self)@
                    &&& r == if e.kind == ErrnoKind::NoDev {
                        ReapAction::Unregister
                    } else {
                        ReapAction::Nothing
                    }
                },
            },
    {
        match reaped {
            Ok((urb, Some(deadline))) => {
                self.remove(deadline, urb);
                ReapAction::Complete(urb, Some(self.timer(now)))
            },
            Ok((urb, None)) => ReapAction::Complete(urb, None),
            Err(e) => match e.kind {
                ErrnoKind::NoDev => ReapAction::Unregister,
                _ => ReapAction::Nothing,
            },
        }
    }

    /// Add the timeout of a transfer that was submitted with one; what the timer is to be set to.
    /// A transfer that could not be submitted is complete already, and gets none.
    pub fn submitted(&mut self, urb: u64, deadline: u64, is_complete: bool, now: u64) -> (r: Option<
        TimerSetting,
    >)
        requires
            in_order(old(self)@),
        ensures
            in_order(final(self)@),
            is_complete ==> final(self)@ == old(self)@ && r is None,
            !is_complete ==> final(self)@.to_set() == old(self)@.to_set().insert((deadline, urb))
                && r == Some(timer_for(final(self)@, now)),
    {
        if !is_complete {
            self.insert(deadline, urb);
            Some(self.timer(now))
        } else {
            None
        }
    }
}

/// Of entries in order, those that have come due are exactly the ones whose time is not after
/// `now`: none is cancelled early and none is forgotten.
pub proof fn law_due_is_exact(entries: Seq<TimeoutEntry>, now: u64)
    requires
        in_order(entries),
    ensures
        due(entries, now) <= entries.len(),
        forall|i: int|
            0 <= i < entries.len() ==> ((#[trigger] entries[i]).0 <= now <==> i < due(
                entries,
                now,
            )),
    decreases entries.len(),
{
    if entries.len() > 0 {
        let rest = entries.drop_first();
        assert forall|i: int, j: int| 0 <= i < j < rest.len() implies earlier(
            #[trigger] rest[i],
            #[trigger] rest[j],
        ) by {
            assert(earlier(entries[i + 1], entries[j + 1]));
        }
        law_due_is_exact(rest, now);
        assert forall|i: int| 0 <= i < entries.len() implies ((#[trigger] entries[i]).0 <= now
            <==> i < due(entries, now)) by {
            if i > 0 {
                assert(entries[i] == rest[i - 1]);
                assert(earlier(entries[0], entries[i]));
            }
        }
    }
}

/// Entries are in order exactly if an earlier time comes before a later one, and at the same time a
/// transfer with a lower number before one with a higher.
pub proof fn law_order_is_by_time(entries: Seq<TimeoutEntry>)
    ensures
        in_order(entries) <==> forall|i: int, j: int|
            0 <= i < j < entries.len() ==> (#[trigger] entries[i]).0 < (#[trigger] entries[j]).0 || (
            entries[i].0 == entries[j].0 && entries[i].1 < entries[j].1),
{
}

/// Without entries the timer is off; for an entry that is overdue it expires in a nanosecond; and for
/// one whose time is to come, when that time has come.
pub proof fn law_timer_waits_as_long_as_is_left(entries: Seq<TimeoutEntry>, now: u64)
    ensures
        entries.len() == 0 ==> timer_for(entries, now) == (TimerSetting { tv_sec: 0, tv_nsec: 0 }),
        entries.len() > 0 && entries[0].0 < now ==> timer_for(entries, now) == (TimerSetting {
            tv_sec: 0,
            tv_nsec: 1,
        }),
        entries.len() > 0 && entries[0].0 >= now ==> {
            let t = timer_for(entries, now);
            &&& t.tv_sec * 1_000_000_000 + t.tv_nsec == entries[0].0 - now
            &&& t.tv_nsec < 1_000_000_000
        },
{
}

/// The timer never expires later than the first entry, and is off only if there is none, or if its
/// time is right now.
pub proof fn law_timer_is_for_first(entries: Seq<TimeoutEntry>, now: u64)
    ensures
        ({
            let t = timer_for(entries, now);
            &&& t.tv_nsec < 1_000_000_000
            &&& entries.len() > 0 && entries[0].0 > now ==> now + t.tv_sec * 1_000_000_000 + t.tv_nsec
                == entries[0].0
            &&& t.tv_sec == 0 && t.tv_nsec == 0 ==> entries.len() == 0 || entries[0].0 == now
        }),
{
}

} // verus!
