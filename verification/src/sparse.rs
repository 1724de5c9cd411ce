//! A sparse association from entities to values.
//!
//! Backed by a short vector of pairs with pairwise-distinct keys, which suits
//! the common case that most pages carry no association. Iteration order is
//! insertion order and is stable while the map is not mutated.

use vstd::prelude::*;

use crate::entity::Entity;

verus! {

/// A sparse map from [`Entity`] keys to values of one type.
pub struct SparseMap<V> {
    entries: Vec<(Entity, V)>,
}

impl<V> SparseMap<V> {
    /// Pairwise-distinct keys over a raw entry sequence.
    closed spec fn s_wf(s: Seq<(Entity, V)>) -> bool {
        forall|a: int, b: int|
            0 <= a < b < s.len() ==> (#[trigger] s[a]).0 != (#[trigger] s[b]).0
    }

    /// Whether `k` occurs among the keys of a raw entry sequence.
    closed spec fn s_contains(s: Seq<(Entity, V)>, k: Entity) -> bool {
        exists|i: int| 0 <= i < s.len() && (#[trigger] s[i]).0 == k
    }

    /// The position of `k` in a raw entry sequence.
    closed spec fn s_index(s: Seq<(Entity, V)>, k: Entity) -> int {
        choose|i: int| 0 <= i < s.len() && (#[trigger] s[i]).0 == k
    }

    /// The value paired with `k` in a raw entry sequence.
    closed spec fn s_value(s: Seq<(Entity, V)>, k: Entity) -> V {
        s[Self::s_index(s, k)].1
    }

    /// The key sequence of a raw entry sequence.
    closed spec fn s_keys(s: Seq<(Entity, V)>) -> Seq<Entity> {
        s.map_values(|p: (Entity, V)| p.0)
    }

    /// Internal consistency: keys are pairwise distinct.
    pub closed spec fn wf(self) -> bool {
        Self::s_wf(self.entries@)
    }

    /// The keys, in insertion order.
    pub closed spec fn keys(self) -> Seq<Entity> {
        Self::s_keys(self.entries@)
    }

    /// Whether some value is associated with `k`.
    pub closed spec fn contains_key(self, k: Entity) -> bool {
        Self::s_contains(self.entries@, k)
    }

    /// The value associated with `k`; meaningful only when `contains_key(k)`.
    pub closed spec fn value_of(self, k: Entity) -> V
        recommends
            self.contains_key(k),
    {
        Self::s_value(self.entries@, k)
    }

    /// A key present at a known index determines its position and value.
    proof fn s_lemma_at(s: Seq<(Entity, V)>, k: Entity, i: int)
        requires
            Self::s_wf(s),
            0 <= i < s.len(),
            s[i].0 == k,
        ensures
            Self::s_contains(s, k),
            Self::s_index(s, k) == i,
            Self::s_value(s, k) == s[i].1,
            Self::s_keys(s)[i] == k,
    {
        assert(Self::s_contains(s, k));
        let j = Self::s_index(s, k);
        if j != i {
            if j < i {
                assert(s[j].0 != s[i].0);
            } else {
                assert(s[i].0 != s[j].0);
            }
        }
    }

    /// A contained key sits at its recorded position.
    proof fn s_lemma_contains(s: Seq<(Entity, V)>, k: Entity)
        requires
            Self::s_contains(s, k),
        ensures
            0 <= Self::s_index(s, k) < s.len(),
            s[Self::s_index(s, k)].0 == k,
    {
    }

    /// Replacing the value at one position keeps the keys and every other
    /// association, and installs the new value under that position's key.
    proof fn s_lemma_update(s: Seq<(Entity, V)>, i: int, w: V)
        requires
            Self::s_wf(s),
            0 <= i < s.len(),
        ensures
            ({
                let t = s.update(i, (s[i].0, w));
                &&& Self::s_wf(t)
                &&& Self::s_keys(t) == Self::s_keys(s)
                &&& forall|k2: Entity|
                    #[trigger] Self::s_contains(t, k2) == Self::s_contains(s, k2)
                &&& Self::s_contains(t, s[i].0)
                &&& Self::s_value(t, s[i].0) == w
                &&& forall|k2: Entity|
                    k2 != s[i].0 && Self::s_contains(s, k2) ==> #[trigger] Self::s_value(t, k2)
                        == Self::s_value(s, k2)
            }),
    {
        let t = s.update(i, (s[i].0, w));
        assert forall|a: int, b: int| 0 <= a < b < t.len() implies (#[trigger] t[a]).0 != (
        #[trigger] t[b]).0 by {
            assert(s[a].0 != s[b].0);
        }
        assert(Self::s_keys(t) =~= Self::s_keys(s));
        Self::s_lemma_at(t, s[i].0, i);
        assert forall|k2: Entity| #[trigger] Self::s_contains(t, k2) == Self::s_contains(
            s,
            k2,
        ) by {
            if Self::s_contains(t, k2) {
                let j = Self::s_index(t, k2);
                assert(s[j].0 == k2);
            }
            if Self::s_contains(s, k2) {
                let j = Self::s_index(s, k2);
                assert(t[j].0 == k2);
            }
        }
        assert forall|k2: Entity|
            k2 != s[i].0 && Self::s_contains(s, k2) implies #[trigger] Self::s_value(t, k2)
            == Self::s_value(s, k2) by {
            Self::s_lemma_contains(s, k2);
            let j = Self::s_index(s, k2);
            assert(t[j].0 == k2);
            Self::s_lemma_at(t, k2, j);
            Self::s_lemma_at(s, k2, j);
        }
    }

    /// An empty map.
    pub fn new() -> (r: SparseMap<V>)
        ensures
            r.wf(),
            r.keys() == Seq::<Entity>::empty(),
            forall|k: Entity| !r.contains_key(k),
    {
        let r = SparseMap::<V> { entries: Vec::new() };
        proof {
            assert(r.keys() =~= Seq::<Entity>::empty());
        }
        r
    }

    /// How many keys carry an association.
    pub fn len(&self) -> (r: usize)
        ensures
            r == self.keys().len(),
    {
        self.entries.len()
    }

    /// The key and value at position `i` of the iteration order.
    pub fn pair_at(&self, i: usize) -> (r: (Entity, &V))
        requires
            self.wf(),
            i < self.keys().len(),
        ensures
            r.0 == self.keys()[i as int],
            self.contains_key(r.0),
            *r.1 == self.value_of(r.0),
    {
        let p = &self.entries[i];
        proof {
            Self::s_lemma_at(self.entries@, p.0, i as int);
        }
        (p.0, &p.1)
    }

    /// The value associated with `k`, or nothing.
    pub fn get(&self, k: Entity) -> (r: Option<&V>)
        requires
            self.wf(),
        ensures
            match r {
                Some(v) => self.contains_key(k) && *v == self.value_of(k),
                None => !self.contains_key(k),
            },
    {
        let n = self.entries.len();
        let mut i: usize = 0;
        while i < n
            invariant
                n == self.entries@.len(),
                i <= n,
                self.wf(),
                forall|j: int| 0 <= j < i ==> (#[trigger] self.entries@[j]).0 != k,
            decreases n - i,
        {
            if self.entries[i].0 == k {
                proof {
                    Self::s_lemma_at(self.entries@, k, i as int);
                }
                return Some(&self.entries[i].1);
            }
            i = i + 1;
        }
        None
    }

    /// A mutable reference to the value associated with `k`, or nothing. The
    /// keys and every other association are left as they were.
    pub fn get_mut(&mut self, k: Entity) -> (r: Option<&mut V>)
        requires
            old(self).wf(),
        ensures
            final(self).wf(),
            final(self).keys() == old(self).keys(),
            forall|k2: Entity|
                #[trigger] final(self).contains_key(k2) == old(self).contains_key(k2),
            forall|k2: Entity|
                k2 != k && old(self).contains_key(k2) ==> #[trigger] final(self).value_of(k2)
                    == old(self).value_of(k2),
            match r {
                Some(v) => {
                    &&& old(self).contains_key(k)
                    &&& *v == old(self).value_of(k)
                    &&& final(self).value_of(k) == *final(v)
                },
                None => {
                    &&& !old(self).contains_key(k)
                    &&& *final(self) == *old(self)
                },
            },
    {
        let n = self.entries.len();
        let mut i: usize = 0;
        while i < n
            invariant
                n == self.entries@.len(),
                i <= n,
                *self == *old(self),
                self.wf(),
                forall|j: int| 0 <= j < i ==> (#[trigger] self.entries@[j]).0 != k,
            decreases n - i,
        {
            if self.entries[i].0 == k {
                proof {
                    let s = self.entries@;
                    Self::s_lemma_at(s, k, i as int);
                    assert forall|w: V|
                        {
                            let t = #[trigger] s.update(i as int, (s[i as int].0, w));
                            &&& Self::s_wf(t)
                            &&& Self::s_keys(t) == Self::s_keys(s)
                            &&& forall|k2: Entity|
                                #[trigger] Self::s_contains(t, k2) == Self::s_contains(s, k2)
                            &&& Self::s_contains(t, k)
                            &&& Self::s_value(t, k) == w
                            &&& forall|k2: Entity|
                                k2 != k && Self::s_contains(s, k2) ==> #[trigger] Self::s_value(
                                    t,
                                    k2,
                                ) == Self::s_value(s, k2)
                        } by {
                        Self::s_lemma_update(s, i as int, w);
                    }
                }
                let v = &mut self.entries[i].1;
                return Some(v);
            }
            i = i + 1;
        }
        None
    }

    /// Associates `v` with `k`, overwriting any earlier association. A new
    /// key is appended to the iteration order; an existing key keeps its
    /// position.
    pub fn insert(&mut self, k: Entity, v: V)
        requires
            old(self).wf(),
        ensures
            final(self).wf(),
            final(self).contains_key(k),
            final(self).value_of(k) == v,
            forall|k2: Entity|
                k2 != k ==> #[trigger] final(self).contains_key(k2) == old(self).contains_key(k2),
            forall|k2: Entity|
                k2 != k && old(self).contains_key(k2) ==> #[trigger] final(self).value_of(k2)
                    == old(self).value_of(k2),
            old(self).contains_key(k) ==> final(self).keys() == old(self).keys(),
            !old(self).contains_key(k) ==> final(self).keys() == old(self).keys().push(k),
    {
        let n = self.entries.len();
        let mut i: usize = 0;
        while i < n
            invariant
                n == self.entries@.len(),
                i <= n,
                *self == *old(self),
                self.wf(),
                forall|j: int| 0 <= j < i ==> (#[trigger] self.entries@[j]).0 != k,
            decreases n - i,
        {
            if self.entries[i].0 == k {
                let ghost s = self.entries@;
                proof {
                    Self::s_lemma_at(s, k, i as int);
                }
                self.entries[i] = (k, v);
                proof {
                    assert(self.entries@ == s.update(i as int, (s[i as int].0, v)));
                    Self::s_lemma_update(s, i as int, v);
                }
                return;
            }
            i = i + 1;
        }
        let ghost s = self.entries@;
        self.entries.push((k, v));
        proof {
            let t = self.entries@;
            let m = s.len() as int;
            assert(t == s.push((k, v)));
            assert forall|a: int, b: int| 0 <= a < b < t.len() implies (#[trigger] t[a]).0 != (
            #[trigger] t[b]).0 by {
                if b < m {
                    assert(s[a].0 != s[b].0);
                } else {
                    assert(t[b] == (k, v));
                    assert(s[a].0 != k);
                }
            }
            assert(Self::s_keys(t) =~= Self::s_keys(s).push(k));
            Self::s_lemma_at(t, k, m);
            assert forall|k2: Entity|
                k2 != k implies #[trigger] Self::s_contains(t, k2) == Self::s_contains(s, k2) by {
                if Self::s_contains(t, k2) {
                    let j = Self::s_index(t, k2);
                    assert(j < m);
                    assert(s[j].0 == k2);
                }
                if Self::s_contains(s, k2) {
                    let j = Self::s_index(s, k2);
                    assert(t[j].0 == k2);
                }
            }
            assert forall|k2: Entity|
                k2 != k && Self::s_contains(s, k2) implies #[trigger] Self::s_value(t, k2)
                == Self::s_value(s, k2) by {
                Self::s_lemma_contains(s, k2);
                let j = Self::s_index(s, k2);
                assert(t[j].0 == k2);
                Self::s_lemma_at(t, k2, j);
                Self::s_lemma_at(s, k2, j);
            }
        }
    }

    /// Drops the association for `k`, if any; absence is not an error.
    pub fn remove(&mut self, k: Entity)
        requires
            old(self).wf(),
        ensures
            final(self).wf(),
            !final(self).contains_key(k),
            forall|k2: Entity|
                k2 != k ==> #[trigger] final(self).contains_key(k2) == old(self).contains_key(k2),
            forall|k2: Entity|
                k2 != k && old(self).contains_key(k2) ==> #[trigger] final(self).value_of(k2)
                    == old(self).value_of(k2),
            !old(self).contains_key(k) ==> *final(self) == *old(self),
    {
        let n = self.entries.len();
        let mut i: usize = 0;
        while i < n
            invariant
                n == self.entries@.len(),
                i <= n,
                *self == *old(self),
                self.wf(),
                forall|j: int| 0 <= j < i ==> (#[trigger] self.entries@[j]).0 != k,
            decreases n - i,
        {
            if self.entries[i].0 == k {
                let ghost s = self.entries@;
                proof {
                    Self::s_lemma_at(s, k, i as int);
                }
                let _ = self.entries.remove(i);
                proof {
                    let t = self.entries@;
                    let m = t.len() as int;
                    assert(t == s.remove(i as int));
                    assert forall|j: int| 0 <= j < m implies #[trigger] t[j] == (if j < i as int {
                        s[j]
                    } else {
                        s[j + 1]
                    }) by {}
                    assert forall|a: int, b: int| 0 <= a < b < m implies (#[trigger] t[a]).0 != (
                    #[trigger] t[b]).0 by {
                        let a0 = if a < i as int { a } else { a + 1 };
                        let b0 = if b < i as int { b } else { b + 1 };
                        assert(s[a0].0 != s[b0].0);
                    }
                    assert forall|j: int| 0 <= j < m implies (#[trigger] t[j]).0 != k by {
                        let j0 = if j < i as int { j } else { j + 1 };
                        if s[j0].0 == k {
                            Self::s_lemma_at(s, k, j0);
                        }
                    }
                    if Self::s_contains(t, k) {
                        let j = Self::s_index(t, k);
                        assert(t[j].0 != k);
                    }
                    assert forall|k2: Entity|
                        k2 != k implies #[trigger] Self::s_contains(t, k2) == Self::s_contains(
                        s,
                        k2,
                    ) by {
                        if Self::s_contains(t, k2) {
                            let j = Self::s_index(t, k2);
                            let j0 = if j < i as int { j } else { j + 1 };
                            assert(s[j0].0 == k2);
                        }
                        if Self::s_contains(s, k2) {
                            let j = Self::s_index(s, k2);
                            Self::s_lemma_contains(s, k2);
                            assert(j != i as int);
                            let j1 = if j < i as int { j } else { j - 1 };
                            assert(t[j1].0 == k2);
                        }
                    }
                    assert forall|k2: Entity|
                        k2 != k && Self::s_contains(s, k2) implies #[trigger] Self::s_value(t, k2)
                        == Self::s_value(s, k2) by {
                        let j = Self::s_index(s, k2);
                        Self::s_lemma_contains(s, k2);
                        assert(j != i as int);
                        let j1 = if j < i as int { j } else { j - 1 };
                        assert(t[j1].0 == k2);
                        assert(t[j1].1 == s[j].1);
                        Self::s_lemma_at(t, k2, j1);
                        Self::s_lemma_at(s, k2, j);
                    }
                }
                return;
            }
            i = i + 1;
        }
    }
}

} // verus!
