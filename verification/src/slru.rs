//! A smaller LRU cache over the same linked list: a capacity of `u32`, keys
//! compared for equality only, and a `put` that hands back the value of the
//! entry it pushes out.

use vstd::prelude::*;

verus! {

use crate::dll::DList;
use crate::laws::law_new_key_effect;
use crate::model::{
    contains_key, index_of, is_full, keys_unique, lemma_index_of, lemma_put_present_unique,
    lemma_to_front_unique, lemma_with_new_unique, lookup, put_entries, touched,
};

/// A cache of at most `cap` entries with distinct keys.
pub struct LruCache<K, V> {
    cap: u32,
    list: DList<K, V>,
    size: u32,
}

/// What `put(k, v)` hands back: the old value of `k`, or the value of the
/// entry that left to make room, or nothing.
pub open spec fn put_result<K, V>(s: Seq<(K, V)>, cap: nat, k: K) -> Option<V> {
    if contains_key(s, k) {
        Some(s[index_of(s, k)].1)
    } else if is_full(s, cap) {
        Some(s.last().1)
    } else {
        None
    }
}

impl<K: Eq, V> LruCache<K, V> {
    /// The entries, most recently used first.
    pub closed spec fn view(&self) -> Seq<(K, V)> {
        self.list@
    }

    /// The capacity.
    pub closed spec fn capacity(&self) -> nat {
        self.cap as nat
    }

    pub closed spec fn wf(&self) -> bool {
        &&& self.list.wf()
        &&& keys_unique(self.list@)
        &&& self.size == self.list@.len()
        &&& self.size <= self.cap
        &&& self.cap > 0
    }

    /// A well-formed cache holds entries with distinct keys, no more of them
    /// than its capacity, which is above zero.
    pub proof fn lemma_wf(&self)
        requires
            self.wf(),
        ensures
            keys_unique(self@),
            self@.len() <= self.capacity(),
            self.capacity() > 0,
    {
    }

    /// Creates an empty cache that holds at most `cap` entries.
    pub fn new(cap: u32) -> (r: Self)
        requires
            cap > 0,
        ensures
            r.wf(),
            r@ == Seq::<(K, V)>::empty(),
            r.capacity() == cap,
    {
        LruCache { cap, list: DList::new(), size: 0 }
    }

    /// Returns the value of `key`, or `None` if the cache does not hold it.
    /// A found key becomes the most recently used.
    pub fn get<'a>(&'a mut self, key: &K) -> (r: Option<&'a V>)
        requires
            old(self).wf(),
            vstd::laws_eq::obeys_concrete_eq::<K>(),
        ensures
            final(self).wf(),
            final(self).capacity() == old(self).capacity(),
            final(self)@ == touched(old(self)@, *key),
            match r {
                Some(v) => lookup(old(self)@, *key) == Some(*v),
                None => lookup(old(self)@, *key) == None::<V>,
            },
    {
        match self.list.find_from_front(key) {
            Some(s) => {
                proof {
                    self.list.lemma_pos_in_range(s as int);
                    lemma_index_of(self@, self.list.pos(s as int));
                    lemma_to_front_unique(self@, self.list.pos(s as int));
                }
                self.list.move_to_front(s);
                Some(self.list.val_at(s))
            },
            None => None,
        }
    }

    /// Puts a key-value pair into the cache, as the most recently used
    /// entry. Returns the old value of `key`; or, when the cache was full,
    /// the value of the least recently used entry, which leaves; or `None`.
    pub fn put(&mut self, key: K, val: V) -> (r: Option<V>)
        requires
            old(self).wf(),
            vstd::laws_eq::obeys_concrete_eq::<K>(),
        ensures
            final(self).wf(),
            final(self).capacity() == old(self).capacity(),
            final(self)@ == put_entries(old(self)@, old(self).capacity(), key, val),
            r == put_result(old(self)@, old(self).capacity(), key),
    {
        match self.list.find_from_front(&key) {
            Some(s) => {
                proof {
                    self.list.lemma_pos_in_range(s as int);
                    lemma_index_of(self@, self.list.pos(s as int));
                    lemma_put_present_unique(self@, key, val);
                }
                let ghost before = self@;
                let old_val = self.list.swap_val(s, val);
                self.list.move_to_front(s);
                assert(self@ =~= put_entries(before, self.cap as nat, key, val));
                Some(old_val)
            },
            None => {
                proof { lemma_with_new_unique(self@, self.cap as nat, key, val); }
                if self.size < self.cap {
                    self.size = self.size + 1;
                    self.list.push_front(key, val);
                    None
                } else {
                    let t = self.list.back_slot();
                    let ghost before = self@;
                    let (_old_key, old_val) = self.list.replace(t, key, val);
                    self.list.move_to_front(t);
                    assert(self@ =~= put_entries(before, self.cap as nat, key, val));
                    Some(old_val)
                }
            },
        }
    }
}


/// `put(key, val)` hands back the value that the cache loses: the old value
/// of a held key; for a new key, `None` exactly when no entry leaves (every
/// key stays and the length grows by one), and otherwise the value of the
/// entry that leaves, which is the least recently used one.
pub proof fn law_put_hands_back_what_leaves<K, V>(s: Seq<(K, V)>, cap: nat, key: K, val: V)
    requires
        keys_unique(s),
        s.len() <= cap,
        cap > 0,
    ensures
        contains_key(s, key) ==> put_result(s, cap, key) == lookup(s, key),
        !contains_key(s, key) ==> {
            &&& (put_result(s, cap, key) is None) <==> put_entries(s, cap, key, val).len() == s.len() + 1
            &&& (put_result(s, cap, key) is None) <==> (forall|i: int|
                0 <= i < s.len() ==> contains_key(put_entries(s, cap, key, val), #[trigger] s[i].0))
            &&& put_result(s, cap, key) is Some ==> exists|i: int|
                0 <= i < s.len() && #[trigger] s[i].1 == put_result(s, cap, key).unwrap()
                    && !contains_key(put_entries(s, cap, key, val), s[i].0)
            &&& s.len() >= cap ==> put_result(s, cap, key) == Some(s.last().1)
        },
{
    if !contains_key(s, key) {
        law_new_key_effect(s, cap, key, val);
        if is_full(s, cap) {
            let n = s.len() as int;
            assert(s[n - 1] == s.last());
            assert(!(forall|i: int| 0 <= i < s.len() ==> contains_key(put_entries(s, cap, key, val), #[trigger] s[i].0)));
        }
    }
}

} // verus!
