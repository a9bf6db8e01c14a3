//! An insertion-ordered key/value table whose keys are distinct by view.
//! It stands for one keyed area of a contract's persistent storage.
use vstd::prelude::*;
use crate::ids::Key;

verus! {

/// Entries in the order in which their keys were first written.
pub struct Table<K, T> {
    entries: Vec<(K, T)>,
}

impl<K: Key, T> Table<K, T> {
    /// No two entries carry keys with the same view.
    pub closed spec fn wf(&self) -> bool {
        forall|i: int, j: int|
            0 <= i < j < self.entries@.len() ==> #[trigger] self.entries@[i].0@
                != #[trigger] self.entries@[j].0@
    }

    spec fn has(&self, k: K::V) -> bool {
        exists|i: int| 0 <= i < self.entries@.len() && #[trigger] self.entries@[i].0@ == k
    }

    spec fn pos(&self, k: K::V) -> int {
        choose|i: int| 0 <= i < self.entries@.len() && #[trigger] self.entries@[i].0@ == k
    }

    /// The contents: each key's view mapped to its value.
    pub closed spec fn contents(&self) -> Map<K::V, T> {
        Map::new(|k: K::V| self.has(k), |k: K::V| self.entries@[self.pos(k)].1)
    }

    /// The keys' views in the order in which they were first written.
    pub closed spec fn key_seq(&self) -> Seq<K::V> {
        Seq::new(self.entries@.len(), |i: int| self.entries@[i].0@)
    }

    proof fn lemma_pos(&self, i: int)
        requires
            self.wf(),
            0 <= i < self.entries@.len(),
        ensures
            self.has(self.entries@[i].0@),
            self.pos(self.entries@[i].0@) == i,
    {
        let k = self.entries@[i].0@;
        assert(self.has(k));
        let p = self.pos(k);
        if p != i {
            if p < i {
                assert(self.entries@[p].0@ != self.entries@[i].0@);
            } else {
                assert(self.entries@[i].0@ != self.entries@[p].0@);
            }
        }
    }

    /// The keys of a table are exactly the keys that its key sequence lists,
    /// each once.
    pub proof fn lemma_key_seq(&self)
        requires
            self.wf(),
        ensures
            self.key_seq().no_duplicates(),
            forall|k: K::V| #[trigger] self.contents().contains_key(k) <==> self.key_seq().contains(k),
            self.key_seq().len() == self.contents().dom().len(),
            self.contents().dom().finite(),
    {
        let ks = self.key_seq();
        assert forall|i: int, j: int| 0 <= i < ks.len() && 0 <= j < ks.len() && i != j implies ks[i]
            != ks[j] by {
            if i < j {
                assert(self.entries@[i].0@ != self.entries@[j].0@);
            } else {
                assert(self.entries@[j].0@ != self.entries@[i].0@);
            }
        }
        assert forall|k: K::V| #[trigger] self.contents().contains_key(k) <==> ks.contains(k) by {
            if self.has(k) {
                let p = self.pos(k);
                assert(ks[p] == k);
            }
            if ks.contains(k) {
                let p = choose|p: int| 0 <= p < ks.len() && ks[p] == k;
                assert(self.entries@[p].0@ == k);
            }
        }
        assert(self.contents().dom() =~= ks.to_set());
        ks.unique_seq_to_set();
    }

    /// An empty table.
    pub fn new() -> (t: Self)
        ensures
            t.wf(),
            t.contents() == Map::<K::V, T>::empty(),
            t.key_seq() == Seq::<K::V>::empty(),
    {
        let t = Table { entries: Vec::new() };
        assert(t.contents() =~= Map::<K::V, T>::empty());
        assert(t.key_seq() =~= Seq::<K::V>::empty());
        t
    }

    fn find(&self, k: &K) -> (r: Option<usize>)
        requires
            self.wf(),
        ensures
            r matches Some(i) ==> i < self.entries@.len() && self.entries@[i as int].0@ == k@
                && self.pos(k@) == i,
            r is None ==> !self.has(k@),
    {
        let mut i: usize = 0;
        while i < self.entries.len()
            invariant
                self.wf(),
                i <= self.entries@.len(),
                forall|j: int| 0 <= j < i ==> #[trigger] self.entries@[j].0@ != k@,
            decreases self.entries@.len() - i,
        {
            if self.entries[i].0.same(k) {
                proof {
                    self.lemma_pos(i as int);
                }
                return Some(i);
            }
            i = i + 1;
        }
        None
    }

    /// Whether a value is stored under `k`.
    pub fn contains(&self, k: &K) -> (r: bool)
        requires
            self.wf(),
        ensures
            r == self.contents().contains_key(k@),
    {
        self.find(k).is_some()
    }

    /// The value stored under `k`, if any.
    pub fn get(&self, k: &K) -> (r: Option<&T>)
        requires
            self.wf(),
        ensures
            r matches Some(v) ==> self.contents().contains_key(k@) && *v == self.contents()[k@],
            r is None ==> !self.contents().contains_key(k@),
    {
        match self.find(k) {
            Some(i) => Some(&self.entries[i].1),
            None => None,
        }
    }

    /// Stores `v` under `k`, replacing any value stored there. A key written
    /// for the first time is appended to the key sequence.
    pub fn insert(&mut self, k: K, v: T)
        requires
            old(self).wf(),
        ensures
            final(self).wf(),
            final(self).contents() == old(self).contents().insert(k@, v),
            final(self).key_seq() == (if old(self).contents().contains_key(k@) {
                old(self).key_seq()
            } else {
                old(self).key_seq().push(k@)
            }),
    {
        let ghost old_t = *self;
        let ghost kv = k@;
        match self.find(&k) {
            Some(i) => {
                self.entries.set(i, (k, v));
                proof {
                    assert(self.entries@ == old_t.entries@.update(i as int, (k, v)));
                    assert(self.wf()) by {
                        assert forall|a: int, b: int|
                            0 <= a < b < self.entries@.len() implies #[trigger] self.entries@[a].0@
                            != #[trigger] self.entries@[b].0@ by {
                            assert(old_t.entries@[a].0@ != old_t.entries@[b].0@);
                        }
                    }
                    assert forall|q: K::V| #[trigger] self.has(q) == (old_t.has(q) || q == kv) by {
                        if old_t.has(q) {
                            let p = old_t.pos(q);
                            assert(self.entries@[p].0@ == q);
                        }
                        if self.has(q) {
                            let p = self.pos(q);
                            assert(old_t.entries@[p].0@ == q || p == i);
                        }
                    }
                    assert forall|q: K::V| #[trigger] self.has(q) implies self.entries@[self.pos(
                        q,
                    )].1 == (if q == kv {
                        v
                    } else {
                        old_t.entries@[old_t.pos(q)].1
                    }) by {
                        let p = self.pos(q);
                        self.lemma_pos(p);
                        if q == kv {
                            self.lemma_pos(i as int);
                        } else {
                            assert(p != i);
                            assert(old_t.entries@[p].0@ == q);
                            old_t.lemma_pos(p);
                        }
                    }
                    assert(self.contents() =~= old_t.contents().insert(kv, v));
                    assert(self.key_seq() =~= old_t.key_seq());
                }
            },
            None => {
                self.entries.push((k, v));
                proof {
                    let n = old_t.entries@.len() as int;
                    assert(self.entries@ == old_t.entries@.push((k, v)));
                    assert(self.wf()) by {
                        assert forall|a: int, b: int|
                            0 <= a < b < self.entries@.len() implies #[trigger] self.entries@[a].0@
                            != #[trigger] self.entries@[b].0@ by {
                            if b == n {
                                assert(old_t.entries@[a].0@ != kv);
                            } else {
                                assert(old_t.entries@[a].0@ != old_t.entries@[b].0@);
                            }
                        }
                    }
                    assert forall|q: K::V| #[trigger] self.has(q) == (old_t.has(q) || q == kv) by {
                        if old_t.has(q) {
                            let p = old_t.pos(q);
                            assert(self.entries@[p].0@ == q);
                        }
                        if q == kv {
                            assert(self.entries@[n].0@ == q);
                        }
                        if self.has(q) {
                            let p = self.pos(q);
                            assert(old_t.entries@[p].0@ == q || p == n);
                        }
                    }
                    assert forall|q: K::V| #[trigger] self.has(q) implies self.entries@[self.pos(
                        q,
                    )].1 == (if q == kv {
                        v
                    } else {
                        old_t.entries@[old_t.pos(q)].1
                    }) by {
                        let p = self.pos(q);
                        self.lemma_pos(p);
                        if q == kv {
                            self.lemma_pos(n);
                        } else {
                            assert(p != n);
                            assert(old_t.entries@[p].0@ == q);
                            old_t.lemma_pos(p);
                        }
                    }
                    assert(self.contents() =~= old_t.contents().insert(kv, v));
                    assert(self.key_seq() =~= old_t.key_seq().push(kv));
                }
            },
        }
    }

    /// Copies of the keys, in the order in which they were first written.
    pub fn keys(&self) -> (r: Vec<K>)
        ensures
            r@.len() == self.key_seq().len(),
            forall|i: int| 0 <= i < r@.len() ==> #[trigger] r@[i]@ == self.key_seq()[i],
    {
        let mut r: Vec<K> = Vec::new();
        let mut i: usize = 0;
        while i < self.entries.len()
            invariant
                i <= self.entries@.len(),
                r@.len() == i,
                forall|j: int| 0 <= j < i ==> #[trigger] r@[j]@ == self.entries@[j].0@,
            decreases self.entries@.len() - i,
        {
            r.push(self.entries[i].0.duplicate());
            i = i + 1;
        }
        r
    }
}

} // verus!
