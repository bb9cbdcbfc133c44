//! Numbered slots with a flag each.

use slab::Slab;
use vstd::prelude::*;

verus! {

/// `slab::Slab`, which keeps values under keys that it chooses.
#[verifier::external_type_specification]
#[verifier::external_body]
#[verifier::reject_recursive_types(T)]
pub struct ExSlab<T>(slab::Slab<T>);

/// The flags in a `slab::Slab`, by their keys.
pub uninterp spec fn slab_flags(s: slab::Slab<bool>) -> Map<usize, bool>;

/// `slab::Slab::new` gives a slab with nothing in it.
#[verifier::external_body]
fn slab_new() -> (r: Slab<bool>)
    ensures
        slab_flags(r) =~= map![],
{
    Slab::new()
}

/// Whether there is room for one more value. An entry takes no more than two words, and the memory
/// is doubled when all entries are in use; it must not come to more than half of the address space.
pub open spec fn has_room(flags: Map<usize, bool>) -> bool {
    flags.dom().len() < usize::MAX / 64
}

/// `slab::Slab::insert` puts a value under a key that is not in use, and returns the key. It panics
/// if there is no room.
#[verifier::external_body]
fn slab_insert(s: &mut Slab<bool>, val: bool) -> (key: usize)
    requires
        has_room(slab_flags(*old(s))),
    ensures
        !slab_flags(*old(s)).dom().contains(key),
        slab_flags(*final(s)) == slab_flags(*old(s)).insert(key, val),
{
    s.insert(val)
}

/// `slab::Slab::get` gives the value under a key, if there is one.
#[verifier::external_body]
fn slab_get(s: &Slab<bool>, key: usize) -> (r: Option<&bool>)
    ensures
        match r {
            Some(v) => slab_flags(*s).dom().contains(key) && *v == slab_flags(*s)[key],
            None => !slab_flags(*s).dom().contains(key),
        },
{
    s.get(key)
}

/// `slab::Slab::get_mut` gives access to the value under a key, if there is one, and leaves the
/// others as they are.
#[verifier::external_body]
fn slab_get_mut(s: &mut Slab<bool>, key: usize) -> (r: Option<&mut bool>)
    ensures
        match r {
            Some(v) => slab_flags(*old(s)).dom().contains(key) && *v == slab_flags(*old(s))[key]
                && slab_flags(*final(s)) == slab_flags(*old(s)).insert(key, *final(v)),
            None => !slab_flags(*old(s)).dom().contains(key) && slab_flags(*final(s))
                == slab_flags(*old(s)),
        },
{
    s.get_mut(key)
}

/// `slab::Slab::try_remove` takes the value under a key, if there is one.
#[verifier::external_body]
fn slab_try_remove(s: &mut Slab<bool>, key: usize) -> (r: Option<bool>)
    ensures
        match r {
            Some(v) => slab_flags(*old(s)).dom().contains(key) && v == slab_flags(*old(s))[key]
                && slab_flags(*final(s)) == slab_flags(*old(s)).remove(key),
            None => !slab_flags(*old(s)).dom().contains(key) && slab_flags(*final(s))
                == slab_flags(*old(s)),
        },
{
    s.try_remove(key)
}

/// Numbered slots with a flag each.
pub struct Slots {
    slab: Slab<bool>,
}

impl View for Slots {
    type V = Map<usize, bool>;

    /// The flag of each slot that is in use.
    closed spec fn view(&self) -> Map<usize, bool> {
        slab_flags(self.slab)
    }
}

impl Slots {
    /// No slots in use.
    pub fn new() -> (r: Slots)
        ensures
            r@ == Map::<usize, bool>::empty(),
    {
        Slots { slab: slab_new() }
    }

    /// Take a slot that is not in use, and set its flag.
    pub fn insert(&mut self, flag: bool) -> (key: usize)
        requires
            has_room(old(self)@),
        ensures
            !old(self)@.dom().contains(key),
            final(self)@ == old(self)@.insert(key, flag),
    {
        slab_insert(&mut self.slab, flag)
    }

    /// The flag of a slot, if it is in use.
    pub fn get(&self, key: usize) -> (r: Option<bool>)
        ensures
            r == if self@.dom().contains(key) {
                Some(self@[key])
            } else {
                None
            },
    {
        match slab_get(&self.slab, key) {
            Some(flag) => Some(*flag),
            None => None,
        }
    }

    /// Set the flag of a slot, if it is in use; what the flag was.
    pub fn replace(&mut self, key: usize, flag: bool) -> (r: Option<bool>)
        ensures
            match r {
                Some(v) => old(self)@.dom().contains(key) && v == old(self)@[key] && final(self)@
                    == old(self)@.insert(key, flag),
                None => !old(self)@.dom().contains(key) && final(self)@ == old(self)@,
            },
    {
        match slab_get_mut(&mut self.slab, key) {
            Some(v) => {
                let was: bool = *v;
                *v = flag;
                Some(was)
            },
            None => None,
        }
    }

    /// Give a slot back; what its flag was.
    pub fn remove(&mut self, key: usize) -> (r: Option<bool>)
        ensures
            match r {
                Some(v) => old(self)@.dom().contains(key) && v == old(self)@[key] && final(self)@
                    == old(self)@.remove(key),
                None => !old(self)@.dom().contains(key) && final(self)@ == old(self)@,
            },
    {
        slab_try_remove(&mut self.slab, key)
    }
}

} // verus!
