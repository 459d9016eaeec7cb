use vstd::prelude::*;

mod equivalent;
pub mod laws;
mod model;

pub use equivalent::{CacheKey, Equivalent};
pub use model::CacheModel;

verus! {

/// A single key/value slot of the cache.
enum KeyValueSlot<K, V> {
    Used((K, V)),
    Empty,
}

impl<K, V> KeyValueSlot<K, V> {
    /// The slot as an optional key/value pair.
    spec fn entry(self) -> Option<(K, V)> {
        match self {
            KeyValueSlot::Used(kv) => Some(kv),
            KeyValueSlot::Empty => None,
        }
    }
}

impl<K: View, V> KeyValueSlot<K, V> {
    /// Check a used slot key for equivalence.
    fn is_key<Q: Equivalent<K> + ?Sized>(&self, k: &Q) -> (r: bool)
        ensures
            r == (self.entry() is Some && (self.entry()->0).0@ == k.probe()),
    {
        if let KeyValueSlot::Used(kv) = self {
            k.equivalent(&kv.0)
        } else {
            false
        }
    }

    /// Get the value of a used slot.
    fn get_value(&self) -> (r: Option<&V>)
        ensures
            r == (match self.entry() {
                Some(kv) => Some(&kv.1),
                None => None,
            }),
    {
        if let KeyValueSlot::Used(kv) = self {
            Some(&kv.1)
        } else {
            None
        }
    }

    /// Borrow the key and value of a used slot.
    fn as_pair(&self) -> (r: Option<(&K, &V)>)
        ensures
            r == (match self.entry() {
                Some(kv) => Some((&kv.0, &kv.1)),
                None => None,
            }),
    {
        if let KeyValueSlot::Used(kv) = self {
            Some((&kv.0, &kv.1))
        } else {
            None
        }
    }

    /// Update the value of a used slot; an empty slot stays empty.
    fn update_value(&mut self, v: V)
        ensures
            final(self).entry() == (match old(self).entry() {
                Some(kv) => Some((kv.0, v)),
                None => None,
            }),
    {
        if let KeyValueSlot::Used(kv) = self {
            kv.1 = v
        }
    }
}

/// A small, fixed-size, heap-allocated key/value cache with FIFO retention.
///
/// The cache holds `SIZE` slots. A new key goes into the slot under the
/// cursor, evicting whatever was there, and the cursor moves on to the next
/// slot; re-inserting a present key only replaces its value. A cache with
/// `SIZE == 0` holds nothing: every lookup misses and every insert is a no-op.
pub struct MemoCache<K, V, const SIZE: usize> {
    buffer: Vec<KeyValueSlot<K, V>>,
    cursor: usize,
}

impl<K, V, const SIZE: usize> View for MemoCache<K, V, SIZE> {
    type V = CacheModel<K, V>;

    closed spec fn view(&self) -> CacheModel<K, V> {
        CacheModel {
            slots: self.buffer@.map_values(|s: KeyValueSlot<K, V>| s.entry()),
            cursor: self.cursor as nat,
        }
    }
}

impl<K: View, V, const SIZE: usize> MemoCache<K, V, SIZE> {
    /// The cache is well formed: its model is, and it has `SIZE` slots.
    pub open spec fn wf(&self) -> bool {
        &&& self@.wf()
        &&& self@.capacity() == SIZE
    }
}

impl<K: CacheKey, V, const SIZE: usize> MemoCache<K, V, SIZE> {
    /// Create a new cache, with all slots empty and the cursor at the first.
    pub fn new() -> (r: Self)
        ensures
            r.wf(),
            r@ == CacheModel::<K, V>::empty(SIZE as nat),
    {
        let mut buffer: Vec<KeyValueSlot<K, V>> = Vec::new();
        let mut i: usize = 0;
        while i < SIZE
            invariant
                i <= SIZE,
                buffer@.len() == i,
                forall|j: int| 0 <= j < i ==> #[trigger] buffer@[j] == KeyValueSlot::<K, V>::Empty,
            decreases SIZE - i,
        {
            buffer.push(KeyValueSlot::Empty);
            i += 1;
        }
        let r = Self { buffer, cursor: 0 };
        assert(r@.slots =~= CacheModel::<K, V>::empty(SIZE as nat).slots);
        r
    }

    /// Get the (fixed) capacity of the cache.
    pub fn capacity(&self) -> (r: usize)
        ensures
            r == SIZE,
    {
        SIZE
    }

    /// The index of the slot holding a key equivalent to `k`, if any.
    fn find_slot<Q: Equivalent<K> + ?Sized>(&self, k: &Q) -> (r: Option<usize>)
        requires
            self.wf(),
        ensures
            match r {
                Some(i) => self@.holds(i as int, k.probe()),
                None => !self@.contains(k.probe()),
            },
    {
        let mut i: usize = 0;
        while i < self.buffer.len()
            invariant
                self.wf(),
                i <= self.buffer@.len(),
                forall|j: int| 0 <= j < i ==> !#[trigger] self@.holds(j, k.probe()),
            decreases self.buffer@.len() - i,
        {
            if self.buffer[i].is_key(k) {
                return Some(i);
            }
            i += 1;
        }
        None
    }

    /// Insert a key/value pair.
    ///
    /// A key that is already present keeps its slot and takes the new value;
    /// the cursor does not move. A new key goes into the slot under the
    /// cursor, and the cursor advances by one, wrapping round.
    pub fn insert(&mut self, k: K, v: V)
        requires
            old(self).wf(),
        ensures
            final(self).wf(),
            final(self)@ == old(self)@.insert(k, v),
    {
        proof {
            old(self)@.lemma_insert_wf(k, v);
        }
        match self.find_slot(&k) {
            Some(i) => {
                proof {
                    self@.lemma_index_of(k.probe(), i as int);
                }
                self.buffer[i].update_value(v);
                assert(self@.slots =~= old(self)@.insert(k, v).slots);
            },
            None => {
                if SIZE > 0 {
                    let c = self.cursor;
                    self.buffer.set(c, KeyValueSlot::Used((k, v)));
                    self.cursor = (c + 1) % SIZE;
                    assert(self@.slots =~= old(self)@.insert(k, v).slots);
                }
            },
        }
    }

    /// Lookup a cache entry by a probe equivalent to its key.
    pub fn get<Q: Equivalent<K> + ?Sized>(&self, k: &Q) -> (r: Option<&V>)
        requires
            self.wf(),
        ensures
            r == (match self@.lookup(k.probe()) {
                Some(v) => Some(&v),
                None => None,
            }),
    {
        match self.find_slot(k) {
            Some(i) => {
                proof {
                    self@.lemma_index_of(k.probe(), i as int);
                }
                self.buffer[i].get_value()
            },
            None => None,
        }
    }

    /// Lookup a cache entry by an owned key.
    pub fn find(&self, k: K) -> (r: Option<&V>)
        requires
            self.wf(),
        ensures
            r == (match self@.lookup(k@) {
                Some(v) => Some(&v),
                None => None,
            }),
    {
        self.get(&k)
    }

    /// The index of the slot that the next new key will take.
    pub fn cursor(&self) -> (r: usize)
        ensures
            r == self@.cursor,
    {
        self.cursor
    }

    /// The slots in order, each empty or borrowing its key and value.
    pub fn slots(&self) -> (r: Vec<Option<(&K, &V)>>)
        requires
            self.wf(),
        ensures
            r@.len() == SIZE,
            forall|i: int|
                0 <= i < SIZE ==> #[trigger] r@[i] == (match self@.slots[i] {
                    Some(kv) => Some((&kv.0, &kv.1)),
                    None => None,
                }),
    {
        let mut r: Vec<Option<(&K, &V)>> = Vec::new();
        let mut i: usize = 0;
        while i < self.buffer.len()
            invariant
                self.wf(),
                i <= self.buffer@.len(),
                r@.len() == i,
                forall|j: int|
                    0 <= j < i ==> #[trigger] r@[j] == (match self@.slots[j] {
                        Some(kv) => Some((&kv.0, &kv.1)),
                        None => None,
                    }),
            decreases self.buffer@.len() - i,
        {
            r.push(self.buffer[i].as_pair());
            i += 1;
        }
        r
    }
}

impl<K: CacheKey, V, const SIZE: usize> Default for MemoCache<K, V, SIZE> {
    /// An empty cache, as `new` makes it.
    fn default() -> (r: Self)
        ensures
            r.wf(),
            r@ == CacheModel::<K, V>::empty(SIZE as nat),
    {
        Self::new()
    }
}

} // verus!
