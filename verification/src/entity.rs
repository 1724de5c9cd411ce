//! Generation-checked handles and the arena that issues them.
//!
//! An arena stores values in numbered slots and hands out `Entity` handles.
//! Each slot carries a generation counter; removing an occupant bumps the
//! counter, so a handle kept from before the removal no longer resolves.
//! Every arena also carries a domain tag: a handle issued by one arena is
//! never valid in an arena with a different tag.

use vstd::prelude::*;

verus! {

/// An opaque, copyable handle into an [`Arena`].
///
/// A handle resolves only in the arena that issued it, and only while the
/// slot it names still holds the same occupant (checked by generation).
#[derive(Clone, Copy, PartialEq, Eq, Structural, Debug)]
pub struct Entity {
    pub domain: u64,
    pub index: usize,
    pub generation: u64,
}

struct Slot<V> {
    generation: u64,
    value: Option<V>,
}

/// Handle domains are separate: a handle is valid only in an arena carrying
/// the domain tag it was issued under, so arenas with different tags never
/// accept one another's handles.
pub proof fn lemma_domain_separation<V, W>(a: Arena<V>, b: Arena<W>, e: Entity)
    requires
        a.dom() != b.dom(),
        a.valid(e),
    ensures
        !b.valid(e),
{
}

/// A generational arena for one domain of handles.
pub struct Arena<V> {
    domain: u64,
    slots: Vec<Slot<V>>,
    free: Vec<usize>,
}

impl<V> Arena<V> {
    /// Internal consistency: the free list names in-bounds, vacant slots,
    /// each at most once.
    pub closed spec fn wf(self) -> bool {
        &&& forall|j: int|
            0 <= j < self.free@.len() ==> {
                &&& #[trigger] self.free@[j] < self.slots@.len()
                &&& self.slots@[self.free@[j] as int].value is None
            }
        &&& forall|j: int, k: int|
            0 <= j < k < self.free@.len() ==> #[trigger] self.free@[j] != #[trigger] self.free@[k]
    }

    /// The arena's domain tag.
    pub closed spec fn dom(self) -> u64 {
        self.domain
    }

    /// Whether `e` currently resolves to a live occupant of this arena.
    pub closed spec fn valid(self, e: Entity) -> bool {
        &&& e.domain == self.domain
        &&& e.index < self.slots@.len()
        &&& self.slots@[e.index as int].generation == e.generation
        &&& self.slots@[e.index as int].value is Some
    }

    /// The value stored under `e`; meaningful only when `valid(e)`.
    pub closed spec fn value_at(self, e: Entity) -> V
        recommends
            self.valid(e),
    {
        self.slots@[e.index as int].value->Some_0
    }

    /// An empty arena tagged with `domain`.
    pub fn new(domain: u64) -> (r: Arena<V>)
        ensures
            r.wf(),
            r.dom() == domain,
            forall|e: Entity| !r.valid(e),
    {
        Arena { domain, slots: Vec::new(), free: Vec::new() }
    }

    /// Whether `e` currently resolves to a live occupant.
    pub fn contains(&self, e: Entity) -> (r: bool)
        ensures
            r == self.valid(e),
    {
        e.domain == self.domain && e.index < self.slots.len()
            && self.slots[e.index].generation == e.generation
            && self.slots[e.index].value.is_some()
    }

    /// The value stored under `e`, or nothing for a stale or foreign handle.
    pub fn get(&self, e: Entity) -> (r: Option<&V>)
        ensures
            match r {
                Some(v) => self.valid(e) && *v == self.value_at(e),
                None => !self.valid(e),
            },
    {
        if e.domain == self.domain && e.index < self.slots.len()
            && self.slots[e.index].generation == e.generation {
            match &self.slots[e.index].value {
                Some(v) => Some(v),
                None => None,
            }
        } else {
            None
        }
    }

    /// Stores `value` and returns a fresh handle: one that did not resolve
    /// before the call, resolves after it, and leaves every other handle
    /// exactly as it was.
    pub fn insert(&mut self, value: V) -> (r: Entity)
        requires
            old(self).wf(),
        ensures
            final(self).wf(),
            final(self).dom() == old(self).dom(),
            r.domain == old(self).dom(),
            !old(self).valid(r),
            final(self).valid(r),
            final(self).value_at(r) == value,
            forall|e: Entity| e != r ==> final(self).valid(e) == old(self).valid(e),
            forall|e: Entity|
                e != r && old(self).valid(e) ==> final(self).value_at(e) == old(self).value_at(e),
    {
        match self.free.pop() {
            Some(i) => {
                let generation = self.slots[i].generation;
                self.slots[i].value = Some(value);
                Entity { domain: self.domain, index: i, generation }
            }
            None => {
                let i = self.slots.len();
                self.slots.push(Slot { generation: 0, value: Some(value) });
                Entity { domain: self.domain, index: i, generation: 0 }
            }
        }
    }

    /// Removes the occupant named by `e`, if it is live. The handle stops
    /// resolving; the vacated slot may be reused later, under a bumped
    /// generation, so `e` never resolves to the new occupant.
    pub fn remove(&mut self, e: Entity) -> (r: bool)
        requires
            old(self).wf(),
        ensures
            final(self).wf(),
            final(self).dom() == old(self).dom(),
            r == old(self).valid(e),
            !final(self).valid(e),
            forall|x: Entity| x != e ==> final(self).valid(x) == old(self).valid(x),
            forall|x: Entity|
                x != e && old(self).valid(x) ==> final(self).value_at(x) == old(self).value_at(x),
    {
        if !self.contains(e) {
            return false;
        }
        let i = e.index;
        self.slots[i].value = None;
        let reusable = self.slots[i].generation < u64::MAX;
        if reusable {
            self.slots[i].generation = self.slots[i].generation + 1;
            self.free.push(i);
        }
        true
    }
}

} // verus!
