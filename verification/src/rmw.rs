use std::hash::{BuildHasher, Hash};
use vstd::prelude::*;

verus! {

use crate::LruCache;
use crate::laws::law_put_then_get;
use crate::model::{contains_key, index_of, lemma_update_value_unique, put_entries, touched, with_new};

impl<K: Hash + Eq, V, S: BuildHasher> LruCache<K, V, S> {
    /// Returns the value of `k`, making `k` the most recently used. If the
    /// cache does not hold `k`, the value `f` gives is added under `k` first.
    /// Adding a key needs a capacity above zero.
    pub fn get_or_insert<F>(&mut self, k: K, f: F) -> (r: &V)
        where
            F: FnOnce() -> V,
        requires
            old(self).wf(),
            vstd::laws_eq::obeys_concrete_eq::<K>(),
            old(self).cap() > 0 || contains_key(old(self)@, k),
            !contains_key(old(self)@, k) ==> f.requires(()),
        ensures
            final(self).wf(),
            final(self).cap() == old(self).cap(),
            contains_key(old(self)@, k) ==> {
                &&& *r == old(self)@[index_of(old(self)@, k)].1
                &&& final(self)@ == touched(old(self)@, k)
            },
            !contains_key(old(self)@, k) ==> {
                &&& f.ensures((), *r)
                &&& final(self)@ == with_new(old(self)@, old(self).cap() as nat, k, *r)
            },
    {
        self.get_or_insert_with_key(k, |_k: &K| -> (v: V)
            requires
                f.requires(()),
            ensures
                f.ensures((), v),
            { f() })
    }

    /// Returns the value of `k`, making `k` the most recently used. If the
    /// cache does not hold `k`, the value `f` gives for `k` is added first.
    /// Adding a key needs a capacity above zero.
    pub fn get_or_insert_with_key<F>(&mut self, k: K, f: F) -> (r: &V)
        where
            F: FnOnce(&K) -> V,
        requires
            old(self).wf(),
            vstd::laws_eq::obeys_concrete_eq::<K>(),
            old(self).cap() > 0 || contains_key(old(self)@, k),
            !contains_key(old(self)@, k) ==> f.requires((&k,)),
        ensures
            final(self).wf(),
            final(self).cap() == old(self).cap(),
            contains_key(old(self)@, k) ==> {
                &&& *r == old(self)@[index_of(old(self)@, k)].1
                &&& final(self)@ == touched(old(self)@, k)
            },
            !contains_key(old(self)@, k) ==> {
                &&& f.ensures((&k,), *r)
                &&& final(self)@ == with_new(old(self)@, old(self).cap() as nat, k, *r)
            },
    {
        match self.touch(&k) {
            Some(s) => self.list.val_at(s),
            None => {
                let v = f(&k);
                let _ = self.insert_new(k, v);
                let s = self.list.front_slot();
                self.list.val_at(s)
            },
        }
    }

    /// Returns the value of `k`, making `k` the most recently used. If the
    /// cache does not hold `k`, the value `f` gives is added under a clone of
    /// `k` first, as `put` would add it; `k` is cloned only then.
    /// Adding a key needs a capacity above zero.
    pub fn get_or_insert_ref<'a, F>(&'a mut self, k: &K, f: F) -> (r: &'a V)
        where
            K: Clone,
            F: FnOnce() -> V,
        requires
            old(self).wf(),
            vstd::laws_eq::obeys_concrete_eq::<K>(),
            old(self).cap() > 0 || contains_key(old(self)@, *k),
            !contains_key(old(self)@, *k) ==> f.requires(()),
        ensures
            final(self).wf(),
            final(self).cap() == old(self).cap(),
            contains_key(old(self)@, *k) ==> {
                &&& *r == old(self)@[index_of(old(self)@, *k)].1
                &&& final(self)@ == touched(old(self)@, *k)
            },
            !contains_key(old(self)@, *k) ==> {
                &&& f.ensures((), *r)
                &&& vstd::pervasive::cloned(*k, final(self)@[0].0)
                &&& final(self)@ == put_entries(old(self)@, old(self).cap() as nat, final(self)@[0].0, *r)
            },
    {
        match self.touch(k) {
            Some(s) => self.list.val_at(s),
            None => {
                let v = f();
                let owned = k.clone();
                assert(vstd::pervasive::strictly_cloned(*k, owned));
                proof { law_put_then_get(self@, self.cap as nat, owned, v); }
                let _ = self.capturing_put(owned, v, false);
                let s = self.list.front_slot();
                self.list.val_at(s)
            },
        }
    }

    /// Returns the value of `k`, making `k` the most recently used. If the
    /// cache does not hold `k`, `f` is asked for a value: on `Ok` it is added
    /// under `k`, on `Err` the error is returned and the cache is unchanged.
    /// Adding a key needs a capacity above zero.
    pub fn try_get_or_insert<F, E>(&mut self, k: K, f: F) -> (r: Result<&V, E>)
        where
            F: FnOnce() -> Result<V, E>,
        requires
            old(self).wf(),
            vstd::laws_eq::obeys_concrete_eq::<K>(),
            old(self).cap() > 0 || contains_key(old(self)@, k),
            !contains_key(old(self)@, k) ==> f.requires(()),
        ensures
            final(self).wf(),
            final(self).cap() == old(self).cap(),
            contains_key(old(self)@, k) ==> {
                &&& r matches Ok(v) && *v == old(self)@[index_of(old(self)@, k)].1
                &&& final(self)@ == touched(old(self)@, k)
            },
            !contains_key(old(self)@, k) ==> match r {
                Ok(v) => {
                    &&& f.ensures((), Ok(*v))
                    &&& final(self)@ == with_new(old(self)@, old(self).cap() as nat, k, *v)
                },
                Err(e) => f.ensures((), Err(e)) && final(self)@ == old(self)@,
            },
    {
        self.try_get_or_insert_with_key(k, |_k: &K| -> (v: Result<V, E>)
            requires
                f.requires(()),
            ensures
                f.ensures((), v),
            { f() })
    }

    /// Returns the value of `k`, making `k` the most recently used. If the
    /// cache does not hold `k`, `f` is asked for a value for `k`: on `Ok` it
    /// is added under `k`, on `Err` the error is returned and the cache is
    /// unchanged.
    /// Adding a key needs a capacity above zero.
    pub fn try_get_or_insert_with_key<F, E>(&mut self, k: K, f: F) -> (r: Result<&V, E>)
        where
            F: FnOnce(&K) -> Result<V, E>,
        requires
            old(self).wf(),
            vstd::laws_eq::obeys_concrete_eq::<K>(),
            old(self).cap() > 0 || contains_key(old(self)@, k),
            !contains_key(old(self)@, k) ==> f.requires((&k,)),
        ensures
            final(self).wf(),
            final(self).cap() == old(self).cap(),
            contains_key(old(self)@, k) ==> {
                &&& r matches Ok(v) && *v == old(self)@[index_of(old(self)@, k)].1
                &&& final(self)@ == touched(old(self)@, k)
            },
            !contains_key(old(self)@, k) ==> match r {
                Ok(v) => {
                    &&& f.ensures((&k,), Ok(*v))
                    &&& final(self)@ == with_new(old(self)@, old(self).cap() as nat, k, *v)
                },
                Err(e) => f.ensures((&k,), Err(e)) && final(self)@ == old(self)@,
            },
    {
        match self.touch(&k) {
            Some(s) => Ok(self.list.val_at(s)),
            None => {
                match f(&k) {
                    Ok(v) => {
                        let _ = self.insert_new(k, v);
                        let s = self.list.front_slot();
                        Ok(self.list.val_at(s))
                    },
                    Err(e) => Err(e),
                }
            },
        }
    }

    /// Returns the value of `k`, making `k` the most recently used. If the
    /// cache does not hold `k`, `f` is asked for a value: on `Ok` it is added
    /// under a clone of `k` as `put` would add it, on `Err` the error is
    /// returned and the cache is unchanged; `k` is cloned only when a value
    /// is added.
    /// Adding a key needs a capacity above zero.
    pub fn try_get_or_insert_ref<'a, F, E>(&'a mut self, k: &K, f: F) -> (r: Result<&'a V, E>)
        where
            K: Clone,
            F: FnOnce() -> Result<V, E>,
        requires
            old(self).wf(),
            vstd::laws_eq::obeys_concrete_eq::<K>(),
            old(self).cap() > 0 || contains_key(old(self)@, *k),
            !contains_key(old(self)@, *k) ==> f.requires(()),
        ensures
            final(self).wf(),
            final(self).cap() == old(self).cap(),
            contains_key(old(self)@, *k) ==> {
                &&& r matches Ok(v) && *v == old(self)@[index_of(old(self)@, *k)].1
                &&& final(self)@ == touched(old(self)@, *k)
            },
            !contains_key(old(self)@, *k) ==> match r {
                Ok(v) => {
                    &&& f.ensures((), Ok(*v))
                    &&& vstd::pervasive::cloned(*k, final(self)@[0].0)
                    &&& final(self)@ == put_entries(old(self)@, old(self).cap() as nat, final(self)@[0].0, *v)
                },
                Err(e) => f.ensures((), Err(e)) && final(self)@ == old(self)@,
            },
    {
        match self.touch(k) {
            Some(s) => Ok(self.list.val_at(s)),
            None => {
                match f() {
                    Ok(v) => {
                        let owned = k.clone();
                        assert(vstd::pervasive::strictly_cloned(*k, owned));
                        proof { law_put_then_get(self@, self.cap as nat, owned, v); }
                        let _ = self.capturing_put(owned, v, false);
                        let s = self.list.front_slot();
                        Ok(self.list.val_at(s))
                    },
                    Err(e) => Err(e),
                }
            },
        }
    }

    /// Returns a mutable reference to the value of `k`, making `k` the most
    /// recently used. If the cache does not hold `k`, the value `f` gives is
    /// added under `k` first.
    /// Adding a key needs a capacity above zero.
    pub fn get_or_insert_mut<F>(&mut self, k: K, f: F) -> (r: &mut V)
        where
            F: FnOnce() -> V,
        requires
            old(self).wf(),
            vstd::laws_eq::obeys_concrete_eq::<K>(),
            old(self).cap() > 0 || contains_key(old(self)@, k),
            !contains_key(old(self)@, k) ==> f.requires(()),
        ensures
            final(self).wf(),
            final(self).cap() == old(self).cap(),
            contains_key(old(self)@, k) ==> {
                &&& *r == old(self)@[index_of(old(self)@, k)].1
                &&& final(self)@ == touched(old(self)@, k).update(0, (k, *final(r)))
            },
            !contains_key(old(self)@, k) ==> {
                &&& f.ensures((), *r)
                &&& final(self)@ == with_new(old(self)@, old(self).cap() as nat, k, *r).update(0, (k, *final(r)))
            },
    {
        self.get_or_insert_mut_with_key(k, |_k: &K| -> (v: V)
            requires
                f.requires(()),
            ensures
                f.ensures((), v),
            { f() })
    }

    /// Returns a mutable reference to the value of `k`, making `k` the most
    /// recently used. If the cache does not hold `k`, the value `f` gives for
    /// `k` is added first.
    /// Adding a key needs a capacity above zero.
    pub fn get_or_insert_mut_with_key<F>(&mut self, k: K, f: F) -> (r: &mut V)
        where
            F: FnOnce(&K) -> V,
        requires
            old(self).wf(),
            vstd::laws_eq::obeys_concrete_eq::<K>(),
            old(self).cap() > 0 || contains_key(old(self)@, k),
            !contains_key(old(self)@, k) ==> f.requires((&k,)),
        ensures
            final(self).wf(),
            final(self).cap() == old(self).cap(),
            contains_key(old(self)@, k) ==> {
                &&& *r == old(self)@[index_of(old(self)@, k)].1
                &&& final(self)@ == touched(old(self)@, k).update(0, (k, *final(r)))
            },
            !contains_key(old(self)@, k) ==> {
                &&& f.ensures((&k,), *r)
                &&& final(self)@ == with_new(old(self)@, old(self).cap() as nat, k, *r).update(0, (k, *final(r)))
            },
    {
        match self.touch(&k) {
            Some(s) => self.front_val_mut(s),
            None => {
                let v = f(&k);
                let _ = self.insert_new(k, v);
                let s = self.list.front_slot();
                self.front_val_mut(s)
            },
        }
    }

    /// Returns a mutable reference to the value of `k`, making `k` the most
    /// recently used. If the cache does not hold `k`, the value `f` gives is
    /// added under a clone of `k` first, as `put` would add it; `k` is cloned
    /// only then.
    /// Adding a key needs a capacity above zero.
    pub fn get_or_insert_mut_ref<'a, F>(&'a mut self, k: &K, f: F) -> (r: &'a mut V)
        where
            K: Clone,
            F: FnOnce() -> V,
        requires
            old(self).wf(),
            vstd::laws_eq::obeys_concrete_eq::<K>(),
            old(self).cap() > 0 || contains_key(old(self)@, *k),
            !contains_key(old(self)@, *k) ==> f.requires(()),
        ensures
            final(self).wf(),
            final(self).cap() == old(self).cap(),
            contains_key(old(self)@, *k) ==> {
                &&& *r == old(self)@[index_of(old(self)@, *k)].1
                &&& final(self)@ == touched(old(self)@, *k).update(0, (*k, *final(r)))
            },
            !contains_key(old(self)@, *k) ==> {
                &&& f.ensures((), *r)
                &&& vstd::pervasive::cloned(*k, final(self)@[0].0)
                &&& final(self)@ == put_entries(old(self)@, old(self).cap() as nat, final(self)@[0].0, *r)
                    .update(0, (final(self)@[0].0, *final(r)))
            },
    {
        match self.touch(k) {
            Some(s) => self.front_val_mut(s),
            None => {
                let v = f();
                let owned = k.clone();
                assert(vstd::pervasive::strictly_cloned(*k, owned));
                proof { law_put_then_get(self@, self.cap as nat, owned, v); }
                let _ = self.capturing_put(owned, v, false);
                let s = self.list.front_slot();
                self.front_val_mut(s)
            },
        }
    }

    /// Returns a mutable reference to the value of `k`, making `k` the most
    /// recently used. If the cache does not hold `k`, `f` is asked for a
    /// value: on `Ok` it is added under `k`, on `Err` the error is returned
    /// and the cache is unchanged.
    /// Adding a key needs a capacity above zero.
    pub fn try_get_or_insert_mut<F, E>(&mut self, k: K, f: F) -> (r: Result<&mut V, E>)
        where
            F: FnOnce() -> Result<V, E>,
        requires
            old(self).wf(),
            vstd::laws_eq::obeys_concrete_eq::<K>(),
            old(self).cap() > 0 || contains_key(old(self)@, k),
            !contains_key(old(self)@, k) ==> f.requires(()),
        ensures
            final(self).wf(),
            final(self).cap() == old(self).cap(),
            contains_key(old(self)@, k) ==> {
                &&& r matches Ok(v) && *v == old(self)@[index_of(old(self)@, k)].1
                    && final(self)@ == touched(old(self)@, k).update(0, (k, *final(v)))
            },
            !contains_key(old(self)@, k) ==> match r {
                Ok(v) => {
                    &&& f.ensures((), Ok(*v))
                    &&& final(self)@ == with_new(old(self)@, old(self).cap() as nat, k, *v).update(0, (k, *final(v)))
                },
                Err(e) => f.ensures((), Err(e)) && final(self)@ == old(self)@,
            },
    {
        self.try_get_or_insert_mut_with_key(k, |_k: &K| -> (v: Result<V, E>)
            requires
                f.requires(()),
            ensures
                f.ensures((), v),
            { f() })
    }

    /// Returns a mutable reference to the value of `k`, making `k` the most
    /// recently used. If the cache does not hold `k`, `f` is asked for a
    /// value for `k`: on `Ok` it is added under `k`, on `Err` the error is
    /// returned and the cache is unchanged.
    /// Adding a key needs a capacity above zero.
    pub fn try_get_or_insert_mut_with_key<F, E>(&mut self, k: K, f: F) -> (r: Result<&mut V, E>)
        where
            F: FnOnce(&K) -> Result<V, E>,
        requires
            old(self).wf(),
            vstd::laws_eq::obeys_concrete_eq::<K>(),
            old(self).cap() > 0 || contains_key(old(self)@, k),
            !contains_key(old(self)@, k) ==> f.requires((&k,)),
        ensures
            final(self).wf(),
            final(self).cap() == old(self).cap(),
            contains_key(old(self)@, k) ==> {
                &&& r matches Ok(v) && *v == old(self)@[index_of(old(self)@, k)].1
                    && final(self)@ == touched(old(self)@, k).update(0, (k, *final(v)))
            },
            !contains_key(old(self)@, k) ==> match r {
                Ok(v) => {
                    &&& f.ensures((&k,), Ok(*v))
                    &&& final(self)@ == with_new(old(self)@, old(self).cap() as nat, k, *v).update(0, (k, *final(v)))
                },
                Err(e) => f.ensures((&k,), Err(e)) && final(self)@ == old(self)@,
            },
    {
        match self.touch(&k) {
            Some(s) => Ok(self.front_val_mut(s)),
            None => {
                match f(&k) {
                    Ok(v) => {
                        let _ = self.insert_new(k, v);
                        let s = self.list.front_slot();
                        Ok(self.front_val_mut(s))
                    },
                    Err(e) => Err(e),
                }
            },
        }
    }

    /// Returns a mutable reference to the value of `k`, making `k` the most
    /// recently used. If the cache does not hold `k`, `f` is asked for a
    /// value: on `Ok` it is added under a clone of `k` as `put` would add it,
    /// on `Err` the error is returned and the cache is unchanged; `k` is
    /// cloned only when a value is added.
    /// Adding a key needs a capacity above zero.
    pub fn try_get_or_insert_mut_ref<'a, F, E>(&'a mut self, k: &K, f: F) -> (r: Result<&'a mut V, E>)
        where
            K: Clone,
            F: FnOnce() -> Result<V, E>,
        requires
            old(self).wf(),
            vstd::laws_eq::obeys_concrete_eq::<K>(),
            old(self).cap() > 0 || contains_key(old(self)@, *k),
            !contains_key(old(self)@, *k) ==> f.requires(()),
        ensures
            final(self).wf(),
            final(self).cap() == old(self).cap(),
            contains_key(old(self)@, *k) ==> {
                &&& r matches Ok(v) && *v == old(self)@[index_of(old(self)@, *k)].1
                    && final(self)@ == touched(old(self)@, *k).update(0, (*k, *final(v)))
            },
            !contains_key(old(self)@, *k) ==> match r {
                Ok(v) => {
                    &&& f.ensures((), Ok(*v))
                    &&& vstd::pervasive::cloned(*k, final(self)@[0].0)
                    &&& final(self)@ == put_entries(old(self)@, old(self).cap() as nat, final(self)@[0].0, *v)
                        .update(0, (final(self)@[0].0, *final(v)))
                },
                Err(e) => f.ensures((), Err(e)) && final(self)@ == old(self)@,
            },
    {
        match self.touch(k) {
            Some(s) => Ok(self.front_val_mut(s)),
            None => {
                match f() {
                    Ok(v) => {
                        let owned = k.clone();
                        assert(vstd::pervasive::strictly_cloned(*k, owned));
                        proof { law_put_then_get(self@, self.cap as nat, owned, v); }
                        let _ = self.capturing_put(owned, v, false);
                        let s = self.list.front_slot();
                        Ok(self.front_val_mut(s))
                    },
                    Err(e) => Err(e),
                }
            },
        }
    }

    /// A mutable reference to the value of the most recently used entry,
    /// which slot `s` holds.
    fn front_val_mut(&mut self, s: usize) -> (r: &mut V)
        requires
            old(self).wf(),
            s < old(self)@.len(),
            old(self).list.pos(s as int) == 0,
        ensures
            *r == old(self)@[0].1,
            final(self).wf(),
            final(self).cap() == old(self).cap(),
            final(self)@ == old(self)@.update(0, (old(self)@[0].0, *final(r))),
    {
        proof { lemma_update_value_unique(self@, 0, self@[0].1); }
        let r = self.list.val_mut(s);
        proof { lemma_update_value_unique(old(self)@, 0, *final(r)); }
        r
    }
}

} // verus!
