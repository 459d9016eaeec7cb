use vstd::prelude::*;

use vstd::arithmetic::div_mod::lemma_add_mod_noop_right;

use crate::equivalent::Equivalent;
use crate::model::CacheModel;

verus! {

/// The keys of `kvs` are pairwise distinct.
pub open spec fn distinct_keys<K: View, V>(kvs: Seq<(K, V)>) -> bool {
    forall|i: int, j: int|
        0 <= i < kvs.len() && 0 <= j < kvs.len() && i != j ==> #[trigger] kvs[i].0@
            != #[trigger] kvs[j].0@
}

/// The number of slots never changes: after any sequence of inserts a
/// well-formed cache is still well formed and has as many slots as before.
pub proof fn law_capacity_fixed<K: View, V>(m: CacheModel<K, V>, kvs: Seq<(K, V)>)
    requires
        m.wf(),
    ensures
        m.insert_all(kvs).wf(),
        m.insert_all(kvs).capacity() == m.capacity(),
    decreases kvs.len(),
{
    if kvs.len() > 0 {
        law_capacity_fixed(m, kvs.drop_last());
        m.insert_all(kvs.drop_last()).lemma_insert_wf(kvs.last().0, kvs.last().1);
    }
}

/// A fresh cache, of any capacity, misses every key.
pub proof fn law_fresh_cache_misses<K: View, V>(n: nat, q: K::V)
    ensures
        CacheModel::<K, V>::empty(n).lookup(q) is None,
{
    let m = CacheModel::<K, V>::empty(n);
    assert(!m.contains(q)) by {
        assert forall|i: int| !m.holds(i, q) by {}
    }
}

/// Right after inserting `k` with value `v`, looking `k` up gives `v`.
pub proof fn law_insert_then_lookup<K: View, V>(m: CacheModel<K, V>, k: K, v: V)
    requires
        m.wf(),
        m.capacity() > 0,
    ensures
        m.insert(k, v).lookup(k@) == Some(v),
{
    let s = m.insert(k, v);
    m.lemma_insert_wf(k, v);
    if m.contains(k@) {
        let i = m.index_of(k@);
        assert(m.holds(i, k@));
        s.lemma_index_of(k@, i);
    } else {
        s.lemma_index_of(k@, m.cursor as int);
    }
}

/// Re-inserting a present key, any number of times and with any values,
/// leaves the cursor where it was, leaves every other slot as it was, and
/// keeps the key in its slot: the order of eviction does not change.
pub proof fn law_update_keeps_eviction_order<K: View, V>(
    m: CacheModel<K, V>,
    k: K,
    kvs: Seq<(K, V)>,
)
    requires
        m.wf(),
        m.contains(k@),
        forall|i: int| 0 <= i < kvs.len() ==> (#[trigger] kvs[i]).0@ == k@,
    ensures
        m.insert_all(kvs).cursor == m.cursor,
        m.insert_all(kvs).holds(m.index_of(k@), k@),
        (m.insert_all(kvs).slots[m.index_of(k@)]->0).0 == (m.slots[m.index_of(k@)]->0).0,
        forall|j: int|
            0 <= j < m.capacity() && j != m.index_of(k@) ==> #[trigger] m.insert_all(kvs).slots[j]
                == m.slots[j],
        m.insert_all(kvs).capacity() == m.capacity(),
    decreases kvs.len(),
{
    let idx = m.index_of(k@);
    assert(m.holds(idx, k@));
    if kvs.len() > 0 {
        let prefix = kvs.drop_last();
        law_update_keeps_eviction_order(m, k, prefix);
        law_capacity_fixed(m, prefix);
        let p = m.insert_all(prefix);
        let (k2, v2) = kvs.last();
        assert(k2@ == k@);
        p.lemma_index_of(k@, idx);
    }
}

/// After inserting the first `c` of `kvs`, distinct keys, into a fresh cache
/// of `n >= c` slots, slot `j` holds pair `j` for `j < c`, the rest are
/// empty, and the cursor is at `c % n`.
proof fn lemma_fill<K: View, V>(n: nat, kvs: Seq<(K, V)>, c: nat)
    requires
        n > 0,
        c <= n,
        c <= kvs.len(),
        distinct_keys(kvs),
    ensures
        CacheModel::<K, V>::empty(n).insert_all(kvs.take(c as int)).slots == Seq::new(
            n,
            |j: int|
                if j < c {
                    Some(kvs[j])
                } else {
                    None
                },
        ),
        CacheModel::<K, V>::empty(n).insert_all(kvs.take(c as int)).cursor == c % n,
    decreases c,
{
    let e = CacheModel::<K, V>::empty(n);
    if c == 0 {
        assert(kvs.take(0) =~= Seq::<(K, V)>::empty());
        assert(e.slots =~= Seq::new(n, |j: int| if j < 0 { Some(kvs[j]) } else { None }));
    } else {
        let c1 = (c - 1) as nat;
        lemma_fill(n, kvs, c1);
        assert(kvs.take(c as int).drop_last() =~= kvs.take(c1 as int));
        let p = e.insert_all(kvs.take(c1 as int));
        let (k, v) = kvs[c1 as int];
        assert(kvs.take(c as int).last() == kvs[c1 as int]);
        assert(!p.contains(k@)) by {
            if p.contains(k@) {
                let i = p.index_of(k@);
                assert(p.holds(i, k@));
                assert(i < c1);
                assert(kvs[i].0@ == kvs[c1 as int].0@);
            }
        }
        assert(c1 % n == c1) by {
            vstd::arithmetic::div_mod::lemma_small_mod(c1, n);
        }
        assert(e.insert_all(kvs.take(c as int)).slots =~= Seq::new(
            n,
            |j: int|
                if j < c {
                    Some(kvs[j])
                } else {
                    None
                },
        ));
    }
}

/// Inserting `n + 1` distinct keys, one after another, into a fresh cache
/// of `n` slots evicts the first key and keeps the other `n`, each with its
/// value.
pub proof fn law_fifo_eviction<K: View, V>(n: nat, kvs: Seq<(K, V)>)
    requires
        n > 0,
        kvs.len() == n + 1,
        distinct_keys(kvs),
    ensures
        CacheModel::<K, V>::empty(n).insert_all(kvs).lookup(kvs[0].0@) is None,
        forall|i: int|
            1 <= i <= n ==> CacheModel::<K, V>::empty(n).insert_all(kvs).lookup(
                (#[trigger] kvs[i]).0@,
            ) == Some(kvs[i].1),
{
    let e = CacheModel::<K, V>::empty(n);
    lemma_fill(n, kvs, n);
    assert(kvs.drop_last() =~= kvs.take(n as int));
    let p = e.insert_all(kvs.take(n as int));
    let (k, v) = kvs[n as int];
    assert(!p.contains(k@)) by {
        if p.contains(k@) {
            let i = p.index_of(k@);
            assert(p.holds(i, k@));
            assert(kvs[i].0@ == kvs[n as int].0@);
        }
    }
    law_capacity_fixed(e, kvs);
    let r = e.insert_all(kvs);
    assert(r.slots == p.slots.update(0, Some((k, v))));
    assert(!r.contains(kvs[0].0@)) by {
        if r.contains(kvs[0].0@) {
            let i = r.index_of(kvs[0].0@);
            assert(r.holds(i, kvs[0].0@));
        }
    }
    assert forall|i: int| 1 <= i <= n implies r.lookup((#[trigger] kvs[i]).0@) == Some(kvs[i].1) by {
        if i == n {
            r.lemma_index_of(kvs[i].0@, 0);
        } else {
            r.lemma_index_of(kvs[i].0@, i);
        }
    }
}

/// Every key that a cache built from a fresh one by inserting `kvs` holds
/// is one of the keys of `kvs`.
pub open spec fn keys_from<K: View, V>(m: CacheModel<K, V>, kvs: Seq<(K, V)>) -> bool {
    forall|j: int, q: K::V| #[trigger] m.holds(j, q) ==> exists|i: int| 0 <= i < kvs.len() && kvs[i].0@ == q
}

/// Inserting distinct keys into a fresh cache of `n` slots moves the
/// cursor once per insert, round and round: after `kvs` it stands at
/// `kvs.len() % n`.
pub proof fn law_cursor_counts_new_keys<K: View, V>(n: nat, kvs: Seq<(K, V)>)
    requires
        n > 0,
        distinct_keys(kvs),
    ensures
        CacheModel::<K, V>::empty(n).insert_all(kvs).cursor == kvs.len() % n,
        keys_from(CacheModel::<K, V>::empty(n).insert_all(kvs), kvs),
    decreases kvs.len(),
{
    let e = CacheModel::<K, V>::empty(n);
    if kvs.len() == 0 {
        assert(keys_from(e, kvs)) by {
            assert forall|j: int, q: K::V| #[trigger] e.holds(j, q) implies false by {}
        }
    } else {
        let prefix = kvs.drop_last();
        assert(distinct_keys(prefix)) by {
            assert forall|i: int, j: int|
                0 <= i < prefix.len() && 0 <= j < prefix.len() && i != j implies #[trigger] prefix[i].0@
                != #[trigger] prefix[j].0@ by {
                assert(prefix[i] == kvs[i] && prefix[j] == kvs[j]);
            }
        }
        law_cursor_counts_new_keys(n, prefix);
        law_capacity_fixed(e, prefix);
        let p = e.insert_all(prefix);
        let (k, v) = kvs.last();
        let last = kvs.len() - 1;
        assert(!p.contains(k@)) by {
            if p.contains(k@) {
                let j = p.index_of(k@);
                assert(p.holds(j, k@));
                let i = choose|i: int| 0 <= i < prefix.len() && prefix[i].0@ == k@;
                assert(kvs[i].0@ == kvs[last].0@);
            }
        }
        let r = e.insert_all(kvs);
        assert(r.cursor == (p.cursor + 1) % n);
        lemma_add_mod_noop_right(1, prefix.len() as int, n as int);
        assert(keys_from(r, kvs)) by {
            assert forall|j: int, q: K::V| #[trigger] r.holds(j, q) implies exists|i: int|
                0 <= i < kvs.len() && kvs[i].0@ == q by {
                if j == p.cursor {
                    assert(kvs[last].0@ == q);
                } else {
                    assert(p.holds(j, q));
                    let i = choose|i: int| 0 <= i < prefix.len() && prefix[i].0@ == q;
                    assert(kvs[i].0@ == q);
                }
            }
        }
    }
}

/// A lookup through a probe finds what a lookup through an owned key with
/// the same content finds.
pub proof fn law_probe_lookup<K: View, V, Q: Equivalent<K> + ?Sized>(
    m: CacheModel<K, V>,
    q: &Q,
    k: K,
)
    requires
        q.probe() == k@,
    ensures
        m.lookup(q.probe()) == m.lookup(k@),
{
}

} // verus!
