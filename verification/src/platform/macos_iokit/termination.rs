//! Complete pending transfers when a device's IOKit service is terminated.
//!
//! When a device is unplugged, its transfers in flight receive no completion callback, and nothing
//! enforces their timeouts. So each device is registered, with its transfers in flight, and when
//! its service is terminated all of them are completed as aborted.
//!
//! A transfer is registered before it is submitted and removed before its completion is notified,
//! and once a device was swept it takes no more transfers.

use vstd::prelude::*;

use crate::platform::slots::{self, Slots};

verus! {

/// `kIOMessageServiceIsTerminated` from `IOKit/IOMessage.h`
pub const K_IO_MESSAGE_SERVICE_IS_TERMINATED: u32 = 0xE000_0010;

/// A transfer in flight, by a number that stands for it, and the key of its device.
#[derive(Debug, Clone, Copy, PartialEq, Eq, Structural)]
pub struct PendingEntry {
    pub transfer: usize,
    pub device: usize,
}

/// The devices that are registered, and whether they are closed, with the transfers in flight.
#[verifier::ext_equal]
pub struct RegistryModel {
    pub devices: Map<usize, bool>,
    pub pending: Seq<PendingEntry>,
}

/// The transfers of other devices.
pub open spec fn not_of(pending: Seq<PendingEntry>, device: usize) -> Seq<PendingEntry> {
    pending.filter(|e: PendingEntry| e.device != device)
}

/// The transfers of a device.
pub open spec fn transfers_of(pending: Seq<PendingEntry>, device: usize) -> Seq<usize> {
    pending.filter(|e: PendingEntry| e.device == device).map_values(|e: PendingEntry| e.transfer)
}

/// All entries but those of a transfer.
pub open spec fn without(pending: Seq<PendingEntry>, transfer: usize) -> Seq<PendingEntry> {
    pending.filter(|e: PendingEntry| e.transfer != transfer)
}

impl RegistryModel {
    /// Every transfer in flight belongs to a device that is registered and not closed.
    pub open spec fn is_consistent(self) -> bool {
        forall|i: int|
            0 <= i < self.pending.len() ==> self.devices.dom().contains(
                (#[trigger] self.pending[i]).device,
            ) && !self.devices[self.pending[i].device]
    }

    /// A device is registered under a key.
    pub open spec fn register(self, key: usize) -> RegistryModel {
        RegistryModel { devices: self.devices.insert(key, false), ..self }
    }

    /// A device is forgotten, and its transfers with it.
    pub open spec fn unregister(self, key: usize) -> RegistryModel {
        if self.devices.dom().contains(key) {
            RegistryModel { devices: self.devices.remove(key), pending: not_of(self.pending, key) }
        } else {
            self
        }
    }

    /// Whether a device takes transfers.
    pub open spec fn takes(self, key: usize) -> bool {
        self.devices.dom().contains(key) && !self.devices[key]
    }

    /// A transfer is about to be submitted.
    pub open spec fn add(self, key: usize, transfer: usize) -> RegistryModel {
        if self.takes(key) {
            RegistryModel {
                pending: self.pending.push(PendingEntry { transfer, device: key }),
                ..self
            }
        } else {
            self
        }
    }

    /// A transfer is completed.
    pub open spec fn remove(self, transfer: usize) -> RegistryModel {
        RegistryModel { pending: without(self.pending, transfer), ..self }
    }

    /// The service of a device is terminated.
    pub open spec fn sweep(self, key: usize) -> RegistryModel {
        if self.devices.dom().contains(key) {
            RegistryModel {
                devices: self.devices.insert(key, true),
                pending: not_of(self.pending, key),
            }
        } else {
            self
        }
    }

    /// The transfers that are completed as aborted when the service of a device is terminated.
    pub open spec fn swept(self, key: usize) -> Seq<usize> {
        if self.devices.dom().contains(key) {
            transfers_of(self.pending, key)
        } else {
            seq![]
        }
    }
}

proof fn lemma_filter_step(
    pending: Seq<PendingEntry>,
    i: int,
    keep: spec_fn(PendingEntry) -> bool,
)
    requires
        0 <= i < pending.len(),
    ensures
        pending.take(i + 1).filter(keep) == if keep(pending[i]) {
            pending.take(i).filter(keep).push(pending[i])
        } else {
            pending.take(i).filter(keep)
        },
{
    reveal(Seq::filter);
    assert(pending.take(i + 1).drop_last() =~= pending.take(i));
}

/// The registry of devices and their transfers in flight.
pub struct Registry {
    devices: Slots,
    pending: Vec<PendingEntry>,
}

impl View for Registry {
    type V = RegistryModel;

    closed spec fn view(&self) -> RegistryModel {
        RegistryModel { devices: self.devices@, pending: self.pending@ }
    }
}

impl Registry {
    /// No devices.
    pub fn new() -> (r: Registry)
        ensures
            r@ == (RegistryModel { devices: Map::empty(), pending: seq![] }),
    {
        let r = Registry { devices: Slots::new(), pending: Vec::new() };
        assert(r@ =~= (RegistryModel { devices: Map::empty(), pending: seq![] }));
        r
    }

    /// Register a device; returns its key.
    pub fn register_device(&mut self) -> (key: usize)
        requires
            slots::has_room(old(self)@.devices),
        ensures
            !old(self)@.devices.dom().contains(key),
            final(self)@ == old(self)@.register(key),
    {
        self.devices.insert(false)
    }

    /// Forget a device and any transfers still charged to it.
    pub fn unregister_device(&mut self, key: usize)
        ensures
            final(self)@ == old(self)@.unregister(key),
    {
        if self.devices.remove(key).is_some() {
            let _ = self.take_transfers(key);
        }
        assert(self@ =~= old(self)@.unregister(key));
    }

    /// Record an about-to-be-submitted transfer. `false` means that the device already terminated;
    /// the caller must not submit and should complete the transfer as aborted instead.
    ///
    /// Without a key there is no registration, and nothing is recorded.
    pub fn try_add_pending(&mut self, device_key: Option<usize>, transfer: usize) -> (r: bool)
        ensures
            match device_key {
                None => r && final(self)@ == old(self)@,
                Some(key) => r == old(self)@.takes(key) && final(self)@ == old(self)@.add(
                    key,
                    transfer,
                ),
            },
    {
        let key: usize = match device_key {
            Some(key) => key,
            None => return true,
        };
        match self.devices.get(key) {
            Some(closed) => {
                if closed {
                    return false;
                }
                self.pending.push(PendingEntry { transfer, device: key });
                true
            },
            None => false,
        }
    }

    /// Drop a transfer from the registry when it is completed. Nothing happens to transfers that
    /// are not registered.
    pub fn remove_pending(&mut self, transfer: usize)
        ensures
            final(self)@ == old(self)@.remove(transfer),
    {
        let ghost all = self.pending@;
        let ghost keep = |e: PendingEntry| e.transfer != transfer;
        let mut kept: Vec<PendingEntry> = Vec::new();
        let mut i: usize = 0;
        proof {
            reveal(Seq::filter);
            assert(all.take(0).filter(keep) =~= seq![]);
        }
        while i < self.pending.len()
            invariant
                i <= all.len(),
                self.pending@ == all,
                keep == (|e: PendingEntry| e.transfer != transfer),
                kept@ == all.take(i as int).filter(keep),
            decreases all.len() - i,
        {
            let e = self.pending[i];
            proof {
                lemma_filter_step(all, i as int, keep);
            }
            if e.transfer != transfer {
                kept.push(e);
            }
            i = i + 1;
        }
        assert(all.take(i as int) =~= all);
        self.pending = kept;
        assert(self@ =~= old(self)@.remove(transfer));
    }

    /// Take the transfers of a device out.
    fn take_transfers(&mut self, key: usize) -> (r: Vec<usize>)
        ensures
            r@ == transfers_of(old(self)@.pending, key),
            final(self)@ == (RegistryModel {
                pending: not_of(old(self)@.pending, key),
                ..old(self)@
            }),
    {
        let ghost all = self.pending@;
        let ghost keep = |e: PendingEntry| e.device != key;
        let ghost go = |e: PendingEntry| e.device == key;
        let mut kept: Vec<PendingEntry> = Vec::new();
        let mut swept: Vec<usize> = Vec::new();
        let mut i: usize = 0;
        proof {
            reveal(Seq::filter);
            assert(all.take(0).filter(keep) =~= seq![]);
            assert(all.take(0).filter(go).map_values(|e: PendingEntry| e.transfer) =~= seq![]);
        }
        while i < self.pending.len()
            invariant
                i <= all.len(),
                self.pending@ == all,
                keep == (|e: PendingEntry| e.device != key),
                go == (|e: PendingEntry| e.device == key),
                kept@ == all.take(i as int).filter(keep),
                swept@ == all.take(i as int).filter(go).map_values(|e: PendingEntry| e.transfer),
            decreases all.len() - i,
        {
            let e = self.pending[i];
            let ghost gone = all.take(i as int).filter(go);
            proof {
                lemma_filter_step(all, i as int, keep);
                lemma_filter_step(all, i as int, go);
                assert(gone.push(e).map_values(|e: PendingEntry| e.transfer) =~= gone.map_values(
                    |e: PendingEntry| e.transfer,
                ).push(e.transfer));
            }
            if e.device == key {
                swept.push(e.transfer);
            } else {
                kept.push(e);
            }
            i = i + 1;
        }
        assert(all.take(i as int) =~= all);
        self.pending = kept;
        assert(self@ =~= (RegistryModel { pending: not_of(old(self)@.pending, key), ..old(self)@ }));
        swept
    }

    /// The termination sweep: mark the device closed, and take out its transfers in flight, each of
    /// which is to be completed as aborted.
    pub fn sweep_terminated(&mut self, key: usize) -> (r: Vec<usize>)
        ensures
            r@ == old(self)@.swept(key),
            final(self)@ == old(self)@.sweep(key),
    {
        if self.devices.replace(key, true).is_none() {
            return Vec::new();
        }
        let swept = self.take_transfers(key);
        assert(self@ =~= old(self)@.sweep(key));
        swept
    }

    /// Handle a message about the service of a device.
    pub fn interest_callback(&mut self, key: usize, message_type: u32) -> (r: Vec<usize>)
        ensures
            message_type == K_IO_MESSAGE_SERVICE_IS_TERMINATED ==> r@ == old(self)@.swept(key)
                && final(self)@ == old(self)@.sweep(key),
            message_type != K_IO_MESSAGE_SERVICE_IS_TERMINATED ==> r@ == Seq::<usize>::empty()
                && final(self)@ == old(self)@,
            message_type != 3758096400 ==> r@.len() == 0 && final(self)@ == old(self)@,
    {
        if message_type == K_IO_MESSAGE_SERVICE_IS_TERMINATED {
            return self.sweep_terminated(key);
        }
        Vec::new()
    }
}

proof fn lemma_filter_members(
    pending: Seq<PendingEntry>,
    keep: spec_fn(PendingEntry) -> bool,
)
    ensures
        forall|i: int|
            0 <= i < pending.filter(keep).len() ==> keep(#[trigger] pending.filter(keep)[i])
                && pending.contains(pending.filter(keep)[i]),
        forall|i: int|
            0 <= i < pending.len() && keep(#[trigger] pending[i]) ==> pending.filter(keep).contains(
                pending[i],
            ),
{
    broadcast use vstd::seq_lib::group_filter_ensures;

    assert forall|i: int| 0 <= i < pending.filter(keep).len() implies keep(
        #[trigger] pending.filter(keep)[i],
    ) && pending.contains(pending.filter(keep)[i]) by {
        pending.lemma_filter_contains_rev(keep, pending.filter(keep)[i]);
    }
}

/// No transfer is left in flight on a device that was terminated or forgotten, whatever is done.
pub proof fn law_registry_stays_consistent(r: RegistryModel, key: usize, transfer: usize)
    requires
        r.is_consistent(),
    ensures
        !r.devices.dom().contains(key) ==> r.register(key).is_consistent(),
        r.unregister(key).is_consistent(),
        r.add(key, transfer).is_consistent(),
        r.remove(transfer).is_consistent(),
        r.sweep(key).is_consistent(),
{
    lemma_filter_members(r.pending, |e: PendingEntry| e.device != key);
    lemma_filter_members(r.pending, |e: PendingEntry| e.transfer != transfer);
    assert forall|i: int|
        0 <= i < r.remove(transfer).pending.len() implies r.devices.dom().contains(
        (#[trigger] r.remove(transfer).pending[i]).device,
    ) && !r.devices[r.remove(transfer).pending[i].device] by {
        let e = r.remove(transfer).pending[i];
        let j = choose|j: int| 0 <= j < r.pending.len() && r.pending[j] == e;
        assert(r.pending[j] == e);
    }
    if r.devices.dom().contains(key) {
        assert forall|i: int| 0 <= i < not_of(r.pending, key).len() implies r.devices.dom().contains(
            (#[trigger] not_of(r.pending, key)[i]).device,
        ) && !r.devices[not_of(r.pending, key)[i].device] && not_of(r.pending, key)[i].device
            != key by {
            let e = not_of(r.pending, key)[i];
            let j = choose|j: int| 0 <= j < r.pending.len() && r.pending[j] == e;
            assert(r.pending[j] == e);
        }
        assert forall|i: int|
            0 <= i < r.sweep(key).pending.len() implies r.sweep(key).devices.dom().contains(
            (#[trigger] r.sweep(key).pending[i]).device,
        ) && !r.sweep(key).devices[r.sweep(key).pending[i].device] by {
            assert(r.sweep(key).pending[i] == not_of(r.pending, key)[i]);
        }
        assert forall|i: int|
            0 <= i < r.unregister(key).pending.len() implies r.unregister(key).devices.dom().contains(
            (#[trigger] r.unregister(key).pending[i]).device,
        ) && !r.unregister(key).devices[r.unregister(key).pending[i].device] by {
            assert(r.unregister(key).pending[i] == not_of(r.pending, key)[i]);
        }
    }
}

/// A device that is registered takes transfers, which are then in flight behind those that were before.
/// One that is forgotten or terminated has its own taken out, all of them and no others, and in order;
/// one that is terminated stays, but takes no more. A transfer that is completed is taken out alone.
pub proof fn law_registry_changes_what_is_named(r: RegistryModel, key: usize, transfer: usize)
    ensures
        r.register(key).devices == r.devices.insert(key, false) && r.register(key).pending == r.pending,
        r.takes(key) <==> r.devices.dom().contains(key) && !r.devices[key],
        r.add(key, transfer).devices == r.devices,
        r.devices.dom().contains(key) && !r.devices[key] ==> r.add(key, transfer).pending.drop_last()
            == r.pending && r.add(key, transfer).pending.last().transfer == transfer && r.add(
            key,
            transfer,
        ).pending.last().device == key && r.add(key, transfer).pending.len() == r.pending.len() + 1,
        !(r.devices.dom().contains(key) && !r.devices[key]) ==> r.add(key, transfer).pending
            == r.pending,
        r.remove(transfer).devices == r.devices,
        r.remove(transfer).pending == r.pending.filter(
            |e: PendingEntry| e.transfer != transfer,
        ),
        !r.devices.dom().contains(key) ==> r.unregister(key) == r && r.sweep(key) == r && r.swept(
            key,
        ).len() == 0,
        r.devices.dom().contains(key) ==> {
            &&& r.unregister(key).devices == r.devices.remove(key)
            &&& r.unregister(key).pending == r.pending.filter(|e: PendingEntry| e.device != key)
            &&& r.sweep(key).devices == r.devices.insert(key, true)
            &&& r.sweep(key).pending == r.pending.filter(|e: PendingEntry| e.device != key)
            &&& r.swept(key) == r.pending.filter(|e: PendingEntry| e.device == key).map_values(
                |e: PendingEntry| e.transfer,
            )
        },
{
    assert(r.takes(key) ==> r.add(key, transfer).pending.drop_last() =~= r.pending);
}

/// Once the service of a device was terminated, the device takes no more transfers, and nothing is
/// left to be swept.
pub proof fn law_closed_device_rejects(r: RegistryModel, key: usize, transfer: usize)
    ensures
        !r.sweep(key).takes(key),
        r.sweep(key).add(key, transfer) == r.sweep(key),
        r.sweep(key).swept(key) == Seq::<usize>::empty(),
{
    if r.devices.dom().contains(key) {
        let rest = not_of(r.pending, key);
        lemma_filter_members(r.pending, |e: PendingEntry| e.device != key);
        lemma_filter_members(rest, |e: PendingEntry| e.device == key);
        let again = rest.filter(|e: PendingEntry| e.device == key);
        if again.len() > 0 {
            let e = again[0];
            assert(rest.contains(e) && e.device == key);
            let j = choose|j: int| 0 <= j < rest.len() && rest[j] == e;
            assert(rest[j].device != key);
        }
        assert(r.sweep(key).swept(key) =~= seq![]);
    }
}

/// A transfer that was completed is not swept any more, and one that is in flight is.
pub proof fn law_sweep_is_exact(r: RegistryModel, key: usize, transfer: usize)
    requires
        r.takes(key),
    ensures
        r.add(key, transfer).swept(key).contains(transfer),
        !r.remove(transfer).swept(key).contains(transfer),
{
    let added = r.add(key, transfer).pending;
    let mine = |e: PendingEntry| e.device == key;
    let e = PendingEntry { transfer, device: key };
    lemma_filter_members(added, mine);
    assert(added[added.len() - 1] == e && mine(e));
    let i = choose|i: int| 0 <= i < added.filter(mine).len() && added.filter(mine)[i] == e;
    assert(r.add(key, transfer).swept(key)[i] == transfer);
    let left = r.remove(transfer).pending;
    lemma_filter_members(r.pending, |e: PendingEntry| e.transfer != transfer);
    lemma_filter_members(left, mine);
    let swept = r.remove(transfer).swept(key);
    assert forall|k: int| 0 <= k < swept.len() implies swept[k] != transfer by {
        let x = left.filter(mine)[k];
        assert(left.contains(x));
        let j = choose|j: int| 0 <= j < left.len() && left[j] == x;
        assert(left[j].transfer != transfer);
    }
}

} // verus!
