use memo_cache::MemoCache;

#[test]
fn capacity_stays_fixed_through_inserts() {
    let mut c = MemoCache::<u32, u32, 5>::new();
    assert_eq!(c.capacity(), 5);
    for i in 0..23u32 {
        c.insert(i % 7, i);
        assert_eq!(c.capacity(), 5);
        assert_eq!(c.slots().len(), 5);
    }
}

#[test]
fn fresh_caches_miss_every_key() {
    let c1 = MemoCache::<u64, u8, 1>::new();
    let c4 = MemoCache::<u64, u8, 4>::new();
    let c16 = MemoCache::<u64, u8, 16>::new();
    for k in [0u64, 1, 42, u64::MAX] {
        assert!(c1.get(&k).is_none());
        assert!(c4.get(&k).is_none());
        assert!(c16.get(&k).is_none());
    }
    assert_eq!(c16.cursor(), 0);
}

#[test]
fn default_is_a_fresh_cache() {
    let c: MemoCache<u32, u32, 3> = MemoCache::default();
    assert_eq!(c.capacity(), 3);
    assert_eq!(c.cursor(), 0);
    assert!(c.slots().iter().all(|s| s.is_none()));
    assert!(c.get(&7).is_none());
}

#[test]
fn insert_then_find_returns_the_value() {
    let mut c = MemoCache::<u32, String, 4>::new();
    assert!(c.get(&42).is_none());
    c.insert(42, "The Answer".to_owned());
    assert!(c.get(&42).is_some_and(|v| v == "The Answer"));

    // With a single slot, each new key still finds its own value.
    let mut one = MemoCache::<i64, i64, 1>::new();
    for k in -3..3i64 {
        one.insert(k, k * 10);
        assert_eq!(one.find(k), Some(&(k * 10)));
        assert!(one.find(k - 1).is_none());
    }
}

#[test]
fn updates_keep_cursor_and_eviction_order() {
    let mut c = MemoCache::<char, u32, 3>::new();
    c.insert('a', 1);
    c.insert('b', 2);
    assert_eq!(c.cursor(), 2);
    for v in 0..10u32 {
        c.insert('a', v);
        assert_eq!(c.cursor(), 2);
    }
    assert_eq!(c.find('a'), Some(&9));
    c.insert('c', 3);
    assert_eq!(c.cursor(), 0);
    // Updating 'a' did not protect it: it is still the oldest new key.
    c.insert('a', 100);
    c.insert('d', 4);
    assert!(c.find('a').is_none());
    assert_eq!(c.find('b'), Some(&2));
    assert_eq!(c.find('c'), Some(&3));
    assert_eq!(c.find('d'), Some(&4));
    assert_eq!(c.cursor(), 1);
}

#[test]
fn reading_does_not_protect_from_eviction() {
    let mut c = MemoCache::<u16, u16, 2>::new();
    c.insert(1, 10);
    c.insert(2, 20);
    for _ in 0..5 {
        assert_eq!(c.get(&1), Some(&10));
    }
    c.insert(3, 30);
    assert!(c.get(&1).is_none());
    assert_eq!(c.get(&2), Some(&20));
    assert_eq!(c.get(&3), Some(&30));
}

#[test]
fn overflow_evicts_first_inserted() {
    let mut c = MemoCache::<String, i32, 3>::new();
    c.insert("veni".to_owned(), 19);
    c.insert("vidi".to_owned(), 23);
    c.insert("vici".to_owned(), 29);
    c.insert("blah".to_owned(), 42);
    assert!(c.find("veni".to_owned()).is_none());
    assert_eq!(c.find("vidi".to_owned()), Some(&23));
    assert_eq!(c.find("vici".to_owned()), Some(&29));
    assert_eq!(c.find("blah".to_owned()), Some(&42));
}

#[test]
fn cursor_cycles_with_insert_count() {
    let mut c = MemoCache::<usize, usize, 3>::new();
    for n in 0..10usize {
        assert_eq!(c.cursor(), n % 3);
        c.insert(n, n);
    }
    assert_eq!(c.cursor(), 10 % 3);
}

#[test]
fn duplicate_insert_keeps_cursor() {
    let mut c = MemoCache::<String, i32, 2>::new();
    c.insert("John".to_owned(), 17);
    c.insert("Doe".to_owned(), 19);
    assert_eq!(c.cursor(), 0);
    c.insert("John".to_owned(), 17);
    assert_eq!(c.cursor(), 0);
    assert_eq!(c.find("John".to_owned()), Some(&17));
    assert_eq!(c.find("Doe".to_owned()), Some(&19));
    c.insert("John".to_owned(), 42);
    assert_eq!(c.cursor(), 0);
    assert_eq!(c.find("John".to_owned()), Some(&42));
    assert_eq!(c.find("Doe".to_owned()), Some(&19));
}

#[test]
fn borrowed_probe_matches_owned_key() {
    let mut c = MemoCache::<String, i32, 3>::new();
    c.insert("veni".to_owned(), 19);
    c.insert("vidi".to_owned(), 23);
    for k in ["veni", "vidi", "vici", ""] {
        assert_eq!(c.get(k), c.find(k.to_owned()));
        assert_eq!(c.get(k), c.get(&k.to_owned()));
    }
    assert_eq!(c.get("vidi"), Some(&23));
    assert_eq!(c.get("veni"), Some(&19));
    assert!(c.get("vic").is_none());
    assert!(c.get("vidi ").is_none());
}

#[test]
fn zero_capacity_always_misses() {
    let mut c = MemoCache::<u8, u8, 0>::new();
    assert_eq!(c.capacity(), 0);
    c.insert(1, 1);
    c.insert(1, 2);
    assert!(c.find(1).is_none());
    assert_eq!(c.cursor(), 0);
    assert!(c.slots().is_empty());
}

#[test]
fn slots_show_entries_in_order() {
    let mut c = MemoCache::<i8, bool, 3>::new();
    c.insert(-1, true);
    c.insert(5, false);
    let s = c.slots();
    assert_eq!(s[0], Some((&-1, &true)));
    assert_eq!(s[1], Some((&5, &false)));
    assert_eq!(s[2], None);
    c.insert(5, true);
    c.insert(7, true);
    c.insert(8, false);
    let s = c.slots();
    assert_eq!(s[0], Some((&8, &false)));
    assert_eq!(s[1], Some((&5, &true)));
    assert_eq!(s[2], Some((&7, &true)));
}
