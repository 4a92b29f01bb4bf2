use vstd::prelude::*;

verus! {

use crate::LruCache;
use crate::model::{contains_key, index_of, lemma_index_of, lemma_update_value_unique, lookup};

impl<K, V, S> LruCache<K, V, S> {
    /// The number of entries in the cache.
    pub fn len(&self) -> (r: usize)
        requires
            self.wf(),
        ensures
            r == self@.len(),
    {
        self.list.len()
    }

    /// Whether the cache holds no entry.
    pub fn is_empty(&self) -> (r: bool)
        requires
            self.wf(),
        ensures
            r == (self@.len() == 0),
    {
        self.list.len() == 0
    }

    /// The value of `k`, without changing the order of use.
    pub fn peek(&self, k: &K) -> (r: Option<&V>)
        where
            K: PartialEq,
        requires
            self.wf(),
            vstd::laws_eq::obeys_concrete_eq::<K>(),
        ensures
            match r {
                Some(v) => lookup(self@, *k) == Some(*v),
                None => lookup(self@, *k) == None::<V>,
            },
    {
        match self.list.find(k) {
            Some(s) => {
                proof {
                    self.list.lemma_pos_in_range(s as int);
                    lemma_index_of(self@, self.list.pos(s as int));
                }
                Some(self.list.val_at(s))
            },
            None => None,
        }
    }

    /// A mutable reference to the value of `k`, without changing the order of use.
    pub fn peek_mut(&mut self, k: &K) -> (r: Option<&mut V>)
        where
            K: PartialEq,
        requires
            old(self).wf(),
            vstd::laws_eq::obeys_concrete_eq::<K>(),
        ensures
            final(self).wf(),
            final(self).cap() == old(self).cap(),
            match r {
                Some(v) => {
                    &&& lookup(old(self)@, *k) == Some(*v)
                    &&& final(self)@ == old(self)@.update(index_of(old(self)@, *k), (*k, *final(v)))
                },
                None => lookup(old(self)@, *k) == None::<V> && final(self)@ == old(self)@,
            },
    {
        match self.list.find(k) {
            Some(s) => {
                proof {
                    self.list.lemma_pos_in_range(s as int);
                    lemma_index_of(self@, self.list.pos(s as int));
                    lemma_update_value_unique(self@, self.list.pos(s as int), self@[self.list.pos(s as int)].1);
                }
                let r = self.list.val_mut(s);
                proof {
                    lemma_update_value_unique(old(self)@, old(self).list.pos(s as int), *final(r));
                }
                Some(r)
            },
            None => None,
        }
    }

    /// The least recently used entry, if any.
    pub fn peek_lru(&self) -> (r: Option<(&K, &V)>)
        requires
            self.wf(),
        ensures
            match r {
                Some(e) => self@.len() > 0 && (*e.0, *e.1) == self@.last(),
                None => self@.len() == 0,
            },
    {
        if self.list.len() == 0 {
            return None;
        }
        let s = self.list.back_slot();
        Some((self.list.key_at(s), self.list.val_at(s)))
    }

    /// The most recently used entry, if any.
    pub fn peek_mru(&self) -> (r: Option<(&K, &V)>)
        requires
            self.wf(),
        ensures
            match r {
                Some(e) => self@.len() > 0 && (*e.0, *e.1) == self@[0],
                None => self@.len() == 0,
            },
    {
        if self.list.len() == 0 {
            return None;
        }
        let s = self.list.front_slot();
        Some((self.list.key_at(s), self.list.val_at(s)))
    }

    /// Whether the cache holds an entry for `k`, without changing the order of use.
    pub fn contains(&self, k: &K) -> (r: bool)
        where
            K: PartialEq,
        requires
            self.wf(),
            vstd::laws_eq::obeys_concrete_eq::<K>(),
        ensures
            r == contains_key(self@, *k),
    {
        match self.list.find(k) {
            Some(s) => {
                proof {
                    self.list.lemma_pos_in_range(s as int);
                    lemma_index_of(self@, self.list.pos(s as int));
                }
                true
            },
            None => false,
        }
    }
}

} // verus!
