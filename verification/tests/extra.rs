use std::collections::hash_map::RandomState;
use vlru::even_int::EvenInt;
use vlru::slru;
use vlru::LruCache;

#[test]
fn put_then_get_gives_the_value() {
    let mut cache = LruCache::new(2);
    cache.put(1, "a");
    cache.put(2, "b");
    cache.put(1, "c");
    assert_eq!(cache.get(&1), Some(&"c"));
    assert_eq!(cache.peek_mru(), Some((&1, &"c")));
}

#[test]
fn put_keeps_other_keys_except_the_evicted() {
    let mut cache = LruCache::new(2);
    cache.put(1, "a");
    cache.put(2, "b");
    cache.put(3, "c");
    assert_eq!(cache.peek(&1), None);
    assert_eq!(cache.peek(&2), Some(&"b"));
    assert_eq!(cache.peek(&3), Some(&"c"));
}

#[test]
fn put_len_counts_new_keys_only() {
    let mut cache = LruCache::new(3);
    cache.put(1, 10);
    assert_eq!(cache.len(), 1);
    cache.put(1, 11);
    assert_eq!(cache.len(), 1);
    cache.put(2, 20);
    cache.put(3, 30);
    assert_eq!(cache.len(), 3);
    cache.put(4, 40);
    assert_eq!(cache.len(), 3);
}

#[test]
fn reorder_keeps_values() {
    let mut cache = LruCache::new(3);
    cache.put(1, 10);
    cache.put(2, 20);
    cache.put(3, 30);
    assert!(cache.promote(&1));
    assert!(cache.demote(&3));
    assert_eq!(cache.peek(&1), Some(&10));
    assert_eq!(cache.peek(&2), Some(&20));
    assert_eq!(cache.peek(&3), Some(&30));
    assert_eq!(cache.peek_mru(), Some((&1, &10)));
    assert_eq!(cache.peek_lru(), Some((&3, &30)));
}

#[test]
fn promote_front_demote_back() {
    let mut cache = LruCache::new(3);
    cache.put(1, 10);
    cache.put(2, 20);
    cache.put(3, 30);
    cache.promote(&1);
    assert_eq!(cache.pop_mru(), Some((1, 10)));
    cache.demote(&3);
    assert_eq!(cache.pop_lru(), Some((3, 30)));
    assert!(!cache.promote(&7));
    assert!(!cache.demote(&7));
}

#[test]
fn pop_removes_only_the_key() {
    let mut cache = LruCache::new(3);
    cache.put(1, 10);
    cache.put(2, 20);
    assert_eq!(cache.pop(&1), Some(10));
    assert!(!cache.contains(&1));
    assert_eq!(cache.peek(&2), Some(&20));
    assert_eq!(cache.pop(&1), None);
    assert_eq!(cache.pop_entry(&2), Some((2, 20)));
    assert!(cache.is_empty());
}

#[test]
fn put_then_pop_gives_back_the_value() {
    let mut cache = LruCache::new(1);
    cache.put(5, "x");
    cache.put(6, "y");
    assert_eq!(cache.pop(&6), Some("y"));
    assert!(!cache.contains(&6));
}

#[test]
fn unbounded_keeps_all() {
    let mut cache = LruCache::unbounded();
    for i in 0..100 {
        assert_eq!(cache.push(i, i), None);
    }
    assert_eq!(cache.len(), 100);
    assert_eq!(cache.cap(), usize::MAX);
    assert_eq!(cache.peek_lru(), Some((&0, &0)));
}

#[test]
fn push_returns_old_or_evicted_pair() {
    let mut cache = LruCache::new(2);
    assert_eq!(cache.push(1, "a"), None);
    assert_eq!(cache.push(2, "b"), None);
    assert_eq!(cache.push(2, "beta"), Some((2, "b")));
    assert_eq!(cache.push(3, "c"), Some((1, "a")));
    assert_eq!(cache.get(&1), None);
}

#[test]
fn put_on_full_cache_returns_none() {
    let mut cache = LruCache::new(1);
    assert_eq!(cache.put(1, "a"), None);
    assert_eq!(cache.put(2, "b"), None);
    assert_eq!(cache.len(), 1);
}

#[test]
fn pops_on_empty_cache() {
    let mut cache: LruCache<u32, u32> = LruCache::new(2);
    assert_eq!(cache.pop_lru(), None);
    assert_eq!(cache.pop_mru(), None);
    assert_eq!(cache.pop(&1), None);
    assert_eq!(cache.pop_entry(&1), None);
    assert_eq!(cache.peek_lru(), None);
    assert_eq!(cache.peek_mru(), None);
}

#[test]
fn resize_to_the_same_capacity_keeps_everything() {
    let mut cache = LruCache::new(2);
    cache.put(1, 1);
    cache.put(2, 2);
    cache.resize(2);
    assert_eq!(cache.len(), 2);
    assert_eq!(cache.cap(), 2);
    cache.resize(0);
    assert_eq!(cache.len(), 0);
    assert_eq!(cache.cap(), 0);
}

#[test]
fn get_or_insert_on_held_key_does_not_call_f() {
    let mut cache = LruCache::new(2);
    cache.put(1, 10);
    assert_eq!(cache.get_or_insert(1, || panic!("not called")), &10);
    assert_eq!(*cache.get_or_insert_mut(1, || panic!("not called")), 10);
}

#[test]
fn get_or_insert_on_a_full_cache_evicts() {
    let mut cache = LruCache::new(1);
    cache.put(1, 10);
    assert_eq!(cache.get_or_insert(2, || 20), &20);
    assert_eq!(cache.peek(&1), None);
}

#[test]
fn try_get_or_insert_error_leaves_cache_unchanged() {
    let mut cache = LruCache::new(2);
    cache.put(1, 10);
    assert_eq!(cache.try_get_or_insert(2, || Err::<i32, &str>("no")), Err("no"));
    assert_eq!(cache.len(), 1);
    assert_eq!(cache.try_get_or_insert_mut(3, || Err::<i32, &str>("no")), Err("no"));
    assert_eq!(cache.len(), 1);
}

#[test]
fn get_key_value_and_mut() {
    let mut cache = LruCache::new(2);
    cache.put(1, "a");
    assert_eq!(cache.get_key_value(&1), Some((&1, &"a")));
    {
        let (k, v) = cache.get_key_value_mut(&1).unwrap();
        assert_eq!(k, &1);
        *v = "b";
    }
    assert_eq!(cache.get_key_value(&1), Some((&1, &"b")));
    assert_eq!(cache.get_key_value(&2), None);
}

#[test]
fn iter_mut_writes_back() {
    let mut cache = LruCache::new(3);
    cache.put(1, 10);
    cache.put(2, 20);
    {
        let mut it = cache.iter_mut();
        assert_eq!(it.size_hint(), (2, Some(2)));
        while let Some((_, v)) = it.next() {
            *v += 1;
        }
        assert_eq!(it.len(), 0);
    }
    assert_eq!(cache.peek(&1), Some(&11));
    assert_eq!(cache.peek(&2), Some(&21));
}

#[test]
fn iter_counts() {
    let mut cache = LruCache::new(3);
    cache.put(1, 10);
    cache.put(2, 20);
    let it = cache.iter();
    assert_eq!(it.size_hint(), (2, Some(2)));
    assert_eq!(it.count(), 2);
    let into = cache.into_iter();
    assert_eq!(into.size_hint(), (2, Some(2)));
    assert_eq!(into.count(), 2);
}

#[test]
fn clone_keeps_order_and_capacity() {
    let mut cache = LruCache::new(3);
    cache.put(1, 10);
    cache.put(2, 20);
    cache.get(&1);
    let mut copy = cache.clone();
    assert_eq!(copy.cap(), 3);
    assert_eq!(copy.pop_lru(), Some((2, 20)));
    assert_eq!(copy.pop_lru(), Some((1, 10)));
    assert_eq!(cache.len(), 2);
}

#[test]
fn constructors_with_hasher() {
    let mut cache: LruCache<u8, u8, RandomState> = LruCache::with_hasher(1, RandomState::new());
    assert_eq!(cache.cap(), 1);
    cache.put(1, 1);
    assert_eq!(cache.get(&1), Some(&1));
    let cache: LruCache<u8, u8, RandomState> = LruCache::unbounded_with_hasher(RandomState::new());
    assert_eq!(cache.cap(), usize::MAX);
    assert!(cache.is_empty());
}

#[test]
fn peek_mut_updates_without_reordering() {
    let mut cache = LruCache::new(2);
    cache.put(1, 10);
    cache.put(2, 20);
    *cache.peek_mut(&1).unwrap() = 11;
    assert_eq!(cache.peek_lru(), Some((&1, &11)));
}

#[test]
fn slru_put_and_get() {
    let mut cache = slru::LruCache::new(2);
    assert_eq!(cache.put(1, "a"), None);
    assert_eq!(cache.put(2, "b"), None);
    assert_eq!(cache.put(1, "c"), Some("a"));
    assert_eq!(cache.get(&1), Some(&"c"));
    assert_eq!(cache.get(&3), None);
}

#[test]
fn slru_put_on_full_cache_returns_evicted_value() {
    let mut cache = slru::LruCache::new(2);
    cache.put(1, "a");
    cache.put(2, "b");
    assert_eq!(cache.put(3, "c"), Some("a"));
    assert_eq!(cache.get(&1), None);
    assert_eq!(cache.get(&2), Some(&"b"));
    assert_eq!(cache.get(&3), Some(&"c"));
}

#[test]
fn even_int_stays_even() {
    let mut a = EvenInt::new(0);
    let b = EvenInt::new(2);
    a.add_even(&b);
    assert_eq!(a.get(), 2);
    a.add_two();
    assert_eq!(a.get(), 4);
    assert!(a.get() % 2 == 0);
}

#[test]
fn push_agrees_with_put() {
    let mut a = LruCache::new(2);
    let mut b = LruCache::new(2);
    a.put(1, "a");
    b.put(1, "a");
    assert_eq!(a.put(1, "x"), Some("a"));
    assert_eq!(b.push(1, "x"), Some((1, "a")));
    a.put(2, "b");
    b.put(2, "b");
    assert_eq!(a.put(3, "c"), None);
    assert_eq!(b.push(3, "c"), Some((1, "x")));
    assert_eq!(a.pop_lru(), b.pop_lru());
    assert_eq!(a.pop_lru(), b.pop_lru());
}

#[test]
fn pops_keep_the_invariant() {
    let mut cache = LruCache::new(2);
    cache.put(1, 1);
    cache.put(2, 2);
    cache.pop_lru();
    cache.pop_mru();
    assert!(cache.len() <= cache.cap());
    assert!(cache.is_empty());
}

#[test]
fn pop_lru_gives_reverse_order_of_use() {
    let mut cache = LruCache::new(4);
    for i in 0..4 {
        cache.put(i, i * 10);
    }
    cache.get(&0);
    let order: Vec<(i32, i32)> = cache.iter().map_entries();
    for (k, v) in order.into_iter().rev() {
        assert_eq!(cache.pop_lru(), Some((k, v)));
    }
    assert_eq!(cache.pop_lru(), None);
    assert_eq!(cache.pop_lru(), None);
}

trait MapEntries {
    fn map_entries(self) -> Vec<(i32, i32)>;
}

impl<'a> MapEntries for vlru::iter::Iter<'a, i32, i32> {
    fn map_entries(mut self) -> Vec<(i32, i32)> {
        let mut out = Vec::new();
        while let Some((k, v)) = self.next() {
            out.push((*k, *v));
        }
        out
    }
}

#[test]
fn pop_mru_undoes_put_with_room() {
    let mut cache = LruCache::new(3);
    cache.put(1, 10);
    cache.put(2, 20);
    assert_eq!(cache.put(3, 30), None);
    assert_eq!(cache.pop_mru(), Some((3, 30)));
    assert_eq!(cache.pop_lru(), Some((1, 10)));
    assert_eq!(cache.pop_lru(), Some((2, 20)));
}

#[test]
fn with_hasher_behaves_like_new() {
    let mut a: LruCache<u8, u8> = LruCache::new(2);
    let mut b: LruCache<u8, u8, RandomState> = LruCache::with_hasher(2, RandomState::new());
    for (k, v) in [(1, 1), (2, 2), (1, 3), (4, 4)] {
        assert_eq!(a.put(k, v), b.put(k, v));
    }
    assert_eq!(a.get(&2), b.get(&2));
    assert_eq!(a.pop_lru(), b.pop_lru());
    assert_eq!(a.pop_lru(), b.pop_lru());
}
