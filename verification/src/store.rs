//! A store keyed by type discriminators.
//!
//! Holds at most one value per key. Keys are stable discriminators that the
//! caller derives from the stored value's type, so the store behaves as a
//! type-indexed heterogeneous container: registering under a key that is
//! already present is a no-op, which makes default registration idempotent.

use vstd::prelude::*;

verus! {

/// A store holding at most one value per `u64` key.
pub struct TypeStore<V> {
    entries: Vec<(u64, V)>,
}

impl<V> TypeStore<V> {
    /// Pairwise-distinct keys over a raw entry sequence.
    closed spec fn s_wf(s: Seq<(u64, V)>) -> bool {
        forall|a: int, b: int|
            0 <= a < b < s.len() ==> (#[trigger] s[a]).0 != (#[trigger] s[b]).0
    }

    /// Whether `k` occurs among the keys of a raw entry sequence.
    closed spec fn s_contains(s: Seq<(u64, V)>, k: u64) -> bool {
        exists|i: int| 0 <= i < s.len() && (#[trigger] s[i]).0 == k
    }

    /// The position of `k` in a raw entry sequence.
    closed spec fn s_index(s: Seq<(u64, V)>, k: u64) -> int {
        choose|i: int| 0 <= i < s.len() && (#[trigger] s[i]).0 == k
    }

    /// The value paired with `k` in a raw entry sequence.
    closed spec fn s_value(s: Seq<(u64, V)>, k: u64) -> V {
        s[Self::s_index(s, k)].1
    }

    /// Internal consistency: keys are pairwise distinct.
    pub closed spec fn wf(self) -> bool {
        Self::s_wf(self.entries@)
    }

    /// Whether some value is registered under `k`.
    pub closed spec fn contains_key(self, k: u64) -> bool {
        Self::s_contains(self.entries@, k)
    }

    /// The value registered under `k`; meaningful only when `contains_key(k)`.
    pub closed spec fn value_of(self, k: u64) -> V
        recommends
            self.contains_key(k),
    {
        Self::s_value(self.entries@, k)
    }

    /// A key present at a known index determines its position and value.
    proof fn s_lemma_at(s: Seq<(u64, V)>, k: u64, i: int)
        requires
            Self::s_wf(s),
            0 <= i < s.len(),
            s[i].0 == k,
        ensures
            Self::s_contains(s, k),
            Self::s_index(s, k) == i,
            Self::s_value(s, k) == s[i].1,
    {
        assert(Self::s_contains(s, k));
        let j = Self::s_index(s, k);
        if j != i {
            if j < i {
                assert(s[j].0 != s[i].0);
            } else {
                assert(s[i].0 != s[j].0);
            }
        }
    }

    /// An empty store.
    pub fn new() -> (r: TypeStore<V>)
        ensures
            r.wf(),
            forall|k: u64| !r.contains_key(k),
    {
        TypeStore::<V> { entries: Vec::new() }
    }

    /// The value registered under `k`, or nothing.
    pub fn get(&self, k: u64) -> (r: Option<&V>)
        requires
            self.wf(),
        ensures
            match r {
                Some(v) => self.contains_key(k) && *v == self.value_of(k),
                None => !self.contains_key(k),
            },
    {
        let n = self.entries.len();
        let mut i: usize = 0;
        while i < n
            invariant
                n == self.entries@.len(),
                i <= n,
                self.wf(),
                forall|j: int| 0 <= j < i ==> (#[trigger] self.entries@[j]).0 != k,
            decreases n - i,
        {
            if self.entries[i].0 == k {
                proof {
                    Self::s_lemma_at(self.entries@, k, i as int);
                }
                return Some(&self.entries[i].1);
            }
            i = i + 1;
        }
        None
    }

    /// A mutable reference to the value registered under `k`, or nothing.
    /// The keys and every other registration are left as they were.
    pub fn get_mut(&mut self, k: u64) -> (r: Option<&mut V>)
        requires
            old(self).wf(),
        ensures
            final(self).wf(),
            forall|k2: u64| #[trigger] final(self).contains_key(k2) == old(self).contains_key(k2),
            forall|k2: u64|
                k2 != k && old(self).contains_key(k2) ==> #[trigger] final(self).value_of(k2)
                    == old(self).value_of(k2),
            match r {
                Some(v) => {
                    &&& old(self).contains_key(k)
                    &&& *v == old(self).value_of(k)
                    &&& final(self).value_of(k) == *final(v)
                },
                None => {
                    &&& !old(self).contains_key(k)
                    &&& *final(self) == *old(self)
                },
            },
    {
        let n = self.entries.len();
        let mut i: usize = 0;
        while i < n
            invariant
                n == self.entries@.len(),
                i <= n,
                *self == *old(self),
                self.wf(),
                forall|j: int| 0 <= j < i ==> (#[trigger] self.entries@[j]).0 != k,
            decreases n - i,
        {
            if self.entries[i].0 == k {
                proof {
                    let s = self.entries@;
                    Self::s_lemma_at(s, k, i as int);
                    assert forall|w: V|
                        {
                            let t = #[trigger] s.update(i as int, (s[i as int].0, w));
                            &&& Self::s_wf(t)
                            &&& forall|k2: u64|
                                #[trigger] Self::s_contains(t, k2) == Self::s_contains(s, k2)
                            &&& Self::s_contains(t, k)
                            &&& Self::s_value(t, k) == w
                            &&& forall|k2: u64|
                                k2 != k && Self::s_contains(s, k2) ==> #[trigger] Self::s_value(
                                    t,
                                    k2,
                                ) == Self::s_value(s, k2)
                        } by {
                        let t = s.update(i as int, (s[i as int].0, w));
                        assert forall|a: int, b: int| 0 <= a < b < t.len() implies (
                        #[trigger] t[a]).0 != (#[trigger] t[b]).0 by {
                            assert(s[a].0 != s[b].0);
                        }
                        Self::s_lemma_at(t, k, i as int);
                        assert forall|k2: u64| #[trigger] Self::s_contains(t, k2)
                            == Self::s_contains(s, k2) by {
                            if Self::s_contains(t, k2) {
                                let j = Self::s_index(t, k2);
                                assert(s[j].0 == k2);
                            }
                            if Self::s_contains(s, k2) {
                                let j = Self::s_index(s, k2);
                                assert(t[j].0 == k2);
                            }
                        }
                        assert forall|k2: u64|
                            k2 != k && Self::s_contains(s, k2) implies #[trigger] Self::s_value(
                            t,
                            k2,
                        ) == Self::s_value(s, k2) by {
                            let j = Self::s_index(s, k2);
                            assert(t[j].0 == k2);
                            Self::s_lemma_at(t, k2, j);
                            Self::s_lemma_at(s, k2, j);
                        }
                    }
                }
                let v = &mut self.entries[i].1;
                return Some(v);
            }
            i = i + 1;
        }
        None
    }

    /// Registers `v` under `k` iff `k` carries no value yet; a second
    /// registration under the same key leaves the store exactly as it was.
    pub fn register(&mut self, k: u64, v: V)
        requires
            old(self).wf(),
        ensures
            final(self).wf(),
            final(self).contains_key(k),
            old(self).contains_key(k) ==> *final(self) == *old(self),
            !old(self).contains_key(k) ==> final(self).value_of(k) == v,
            forall|k2: u64|
                k2 != k ==> #[trigger] final(self).contains_key(k2) == old(self).contains_key(k2),
            forall|k2: u64|
                k2 != k && old(self).contains_key(k2) ==> #[trigger] final(self).value_of(k2)
                    == old(self).value_of(k2),
    {
        let n = self.entries.len();
        let mut i: usize = 0;
        while i < n
            invariant
                n == self.entries@.len(),
                i <= n,
                *self == *old(self),
                self.wf(),
                forall|j: int| 0 <= j < i ==> (#[trigger] self.entries@[j]).0 != k,
            decreases n - i,
        {
            if self.entries[i].0 == k {
                proof {
                    Self::s_lemma_at(self.entries@, k, i as int);
                }
                return;
            }
            i = i + 1;
        }
        let ghost s = self.entries@;
        self.entries.push((k, v));
        proof {
            let t = self.entries@;
            let m = s.len() as int;
            assert(t == s.push((k, v)));
            assert forall|a: int, b: int| 0 <= a < b < t.len() implies (#[trigger] t[a]).0 != (
            #[trigger] t[b]).0 by {
                if b < m {
                    assert(s[a].0 != s[b].0);
                } else {
                    assert(t[b] == (k, v));
                    assert(s[a].0 != k);
                }
            }
            Self::s_lemma_at(t, k, m);
            assert forall|k2: u64|
                k2 != k implies #[trigger] Self::s_contains(t, k2) == Self::s_contains(s, k2) by {
                if Self::s_contains(t, k2) {
                    let j = Self::s_index(t, k2);
                    assert(j < m);
                    assert(s[j].0 == k2);
                }
                if Self::s_contains(s, k2) {
                    let j = Self::s_index(s, k2);
                    assert(t[j].0 == k2);
                }
            }
            assert forall|k2: u64|
                k2 != k && Self::s_contains(s, k2) implies #[trigger] Self::s_value(t, k2)
                == Self::s_value(s, k2) by {
                let j = Self::s_index(s, k2);
                assert(t[j].0 == k2);
                Self::s_lemma_at(t, k2, j);
                Self::s_lemma_at(s, k2, j);
            }
        }
    }
}

} // verus!
