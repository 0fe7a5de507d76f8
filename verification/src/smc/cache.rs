//! A direct-mapped cache of key metadata.

use vstd::prelude::*;

verus! {

/// The number of slots.
pub const CACHE_SIZE: usize = 256;

/// Size and type of the key that was last seen in each slot. A slot belongs to
/// every key with the same remainder, and holds what was stored last.
pub struct KeyInfoCache {
    slots: [Option<(u32, u32)>; 256],
}

/// The slot of a key.
pub open spec fn slot_of(fourcc: u32) -> int {
    fourcc as int % 256
}

impl KeyInfoCache {
    /// What each slot holds.
    pub closed spec fn view(&self) -> Seq<Option<(u32, u32)>> {
        self.slots@
    }

    /// What the slot of a key holds.
    pub open spec fn entry(&self, fourcc: u32) -> Option<(u32, u32)> {
        self@[slot_of(fourcc)]
    }

    /// A cache has all its slots.
    pub proof fn law_slots(&self)
        ensures
            self@.len() == CACHE_SIZE,
    {
    }

    /// An empty cache.
    #[must_use]
    pub fn new() -> (r: KeyInfoCache)
        ensures
            r@ == Seq::new(256, |i: int| None::<(u32, u32)>),
    {
        let slots: [Option<(u32, u32)>; 256] = [None; 256];
        assert(slots@ =~= Seq::new(256, |i: int| None::<(u32, u32)>));
        KeyInfoCache { slots }
    }

    /// Size and type stored last in the key's slot.
    #[must_use]
    pub fn get(&self, fourcc: u32) -> (r: Option<(u32, u32)>)
        ensures
            r == self.entry(fourcc),
    {
        let idx: usize = (fourcc as usize) % CACHE_SIZE;
        self.slots[idx]
    }

    /// Stores size and type in the key's slot. Every other slot stays as it is.
    pub fn put(&mut self, fourcc: u32, data_size: u32, data_type: u32)
        ensures
            old(self)@.len() == 256,
            final(self)@ == old(self)@.update(slot_of(fourcc), Some((data_size, data_type))),
            forall|j: u32|
                final(self).entry(j) == (if slot_of(j) == slot_of(fourcc) {
                    Some((data_size, data_type))
                } else {
                    old(self).entry(j)
                }),
    {
        let idx: usize = (fourcc as usize) % CACHE_SIZE;
        self.slots[idx] = Some((data_size, data_type));
    }

    /// Empties the key's slot. Every other slot stays as it is, and so does one
    /// that is empty.
    pub fn invalidate(&mut self, fourcc: u32)
        ensures
            old(self)@.len() == 256,
            final(self)@ == old(self)@.update(slot_of(fourcc), None),
            forall|j: u32|
                final(self).entry(j) == (if slot_of(j) == slot_of(fourcc) {
                    None
                } else {
                    old(self).entry(j)
                }),
            old(self).entry(fourcc) is None ==> final(self)@ == old(self)@,
    {
        let idx: usize = (fourcc as usize) % CACHE_SIZE;
        self.slots[idx] = None;
    }
}

/// Emptying a slot twice is emptying it once.
pub proof fn law_invalidating_twice(slots: Seq<Option<(u32, u32)>>, fourcc: u32)
    requires
        slots.len() == CACHE_SIZE,
    ensures
        slots.update(slot_of(fourcc), None).update(slot_of(fourcc), None) == slots.update(
            slot_of(fourcc),
            None,
        ),
{
}

impl Clone for KeyInfoCache {
    fn clone(&self) -> (r: KeyInfoCache)
        ensures
            r == *self,
    {
        KeyInfoCache { slots: self.slots }
    }
}

impl Default for KeyInfoCache {
    fn default() -> (r: KeyInfoCache)
        ensures
            r@ == Seq::new(256, |i: int| None::<(u32, u32)>),
    {
        KeyInfoCache::new()
    }
}

} // verus!
