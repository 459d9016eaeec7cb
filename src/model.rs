use vstd::prelude::*;

verus! {

/// The abstract state of a cache: its slots in order, each empty or holding
/// one key/value pair, and the cursor naming the slot that the next new key
/// will take.
pub struct CacheModel<K, V> {
    pub slots: Seq<Option<(K, V)>>,
    pub cursor: nat,
}

impl<K, V> CacheModel<K, V> {
    /// A cache of `n` empty slots with the cursor at the first.
    pub open spec fn empty(n: nat) -> Self {
        CacheModel { slots: Seq::new(n, |i: int| None), cursor: 0 }
    }

    /// The number of slots.
    pub open spec fn capacity(self) -> nat {
        self.slots.len()
    }
}

impl<K: View, V> CacheModel<K, V> {
    /// Slot `i` holds an entry whose key is `q`.
    pub open spec fn holds(self, i: int, q: K::V) -> bool {
        &&& 0 <= i < self.slots.len()
        &&& self.slots[i] is Some
        &&& (self.slots[i]->0).0@ == q
    }

    /// Some slot holds an entry whose key is `q`.
    pub open spec fn contains(self, q: K::V) -> bool {
        exists|i: int| self.holds(i, q)
    }

    /// The cursor lies within the slots (or is 0 where there are none), and
    /// no two slots hold the same key.
    pub open spec fn wf(self) -> bool {
        &&& if self.slots.len() == 0 {
            self.cursor == 0
        } else {
            self.cursor < self.slots.len()
        }
        &&& forall|i: int, j: int, q: K::V|
            #[trigger] self.holds(i, q) && #[trigger] self.holds(j, q) ==> i == j
    }

    /// The slot that holds key `q`.
    pub open spec fn index_of(self, q: K::V) -> int
        recommends
            self.contains(q),
    {
        choose|i: int| self.holds(i, q)
    }

    /// The value stored under key `q`, if any.
    pub open spec fn lookup(self, q: K::V) -> Option<V> {
        if self.contains(q) {
            Some((self.slots[self.index_of(q)]->0).1)
        } else {
            None
        }
    }

    /// The state after inserting `k` with value `v`: a present key keeps its
    /// slot (and its stored key) and takes `v`, and the cursor stays; a new
    /// key overwrites the slot under the cursor, and the cursor advances,
    /// wrapping round. With no slots nothing changes.
    pub open spec fn insert(self, k: K, v: V) -> Self {
        if self.contains(k@) {
            let i = self.index_of(k@);
            CacheModel {
                slots: self.slots.update(i, Some(((self.slots[i]->0).0, v))),
                cursor: self.cursor,
            }
        } else if self.slots.len() == 0 {
            self
        } else {
            CacheModel {
                slots: self.slots.update(self.cursor as int, Some((k, v))),
                cursor: (self.cursor + 1) % self.slots.len(),
            }
        }
    }

    /// The state after inserting the pairs of `kvs`, first to last.
    pub open spec fn insert_all(self, kvs: Seq<(K, V)>) -> Self
        decreases kvs.len(),
    {
        if kvs.len() == 0 {
            self
        } else {
            self.insert_all(kvs.drop_last()).insert(kvs.last().0, kvs.last().1)
        }
    }

    /// In a well-formed state, the slot that holds a key is the one
    /// `index_of` names.
    pub proof fn lemma_index_of(self, q: K::V, i: int)
        requires
            self.wf(),
            self.holds(i, q),
        ensures
            self.contains(q),
            self.index_of(q) == i,
    {
        assert(self.contains(q));
        let j = self.index_of(q);
        assert(self.holds(j, q));
    }

    /// Inserting keeps a state well formed and keeps its number of slots.
    pub proof fn lemma_insert_wf(self, k: K, v: V)
        requires
            self.wf(),
        ensures
            self.insert(k, v).wf(),
            self.insert(k, v).capacity() == self.capacity(),
    {
        let s = self.insert(k, v);
        if self.contains(k@) {
            assert forall|j: int, q: K::V| #[trigger] s.holds(j, q) implies self.holds(j, q) by {}
        } else if self.slots.len() > 0 {
            let c = self.cursor as int;
            assert forall|i: int, j: int, q: K::V|
                #[trigger] s.holds(i, q) && #[trigger] s.holds(j, q) implies i == j by {
                if i != c {
                    assert(self.holds(i, q));
                }
                if j != c {
                    assert(self.holds(j, q));
                }
            }
        }
    }
}

} // verus!
