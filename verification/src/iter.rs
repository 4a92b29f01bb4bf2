use std::hash::{BuildHasher, Hash};
use vstd::prelude::*;

verus! {

use crate::LruCache;
use crate::dll::DList;
use crate::model::{keys_of, keys_unique, lemma_same_keys_unique, lemma_update_value_keys};

/// An iterator over the entries of a cache, from the most recently used to
/// the least recently used (or backwards, with `next_back`).
pub struct Iter<'a, K, V> {
    list: &'a DList<K, V>,
    front: usize,
    back: usize,
    len: usize,
    start: Ghost<int>,
}

/// The position of an iterator over a list: the entries at positions
/// `start .. start + len` are still to come, `front` and `back` hold the
/// first and the last of them.
pub struct Cursor {
    front: usize,
    back: usize,
    len: usize,
    start: Ghost<int>,
}

impl Cursor {
    /// The positions still to come.
    pub closed spec fn start(&self) -> int {
        self.start@
    }

    pub closed spec fn count(&self) -> nat {
        self.len as nat
    }

    /// The cursor fits the list `l`.
    pub closed spec fn fits<K, V>(&self, l: DList<K, V>) -> bool {
        let n = l@.len();
        &&& l.wf()
        &&& 0 <= self.start@
        &&& self.start@ + self.len <= n
        &&& self.len > 0 ==> {
            &&& self.front < n
            &&& l.pos(self.front as int) == self.start@
            &&& self.back < n
            &&& l.pos(self.back as int) == self.start@ + self.len - 1
        }
    }

    /// A cursor over all of `l`.
    fn all<K, V>(l: &DList<K, V>) -> (r: Cursor)
        requires
            l.wf(),
        ensures
            r.fits(*l),
            r.start() == 0,
            r.count() == l@.len(),
    {
        let n = l.len();
        if n == 0 {
            Cursor { front: 0, back: 0, len: 0, start: Ghost(0) }
        } else {
            Cursor { front: l.front_slot(), back: l.back_slot(), len: n, start: Ghost(0) }
        }
    }

    /// Takes the slot at the front, if any.
    fn take_front<K, V>(&mut self, l: &DList<K, V>) -> (r: Option<usize>)
        requires
            old(self).fits(*l),
        ensures
            final(self).fits(*l),
            match r {
                Some(s) => {
                    &&& old(self).count() > 0
                    &&& s < l@.len()
                    &&& l.pos(s as int) == old(self).start()
                    &&& final(self).start() == old(self).start() + 1
                    &&& final(self).count() == old(self).count() - 1
                },
                None => old(self).count() == 0 && *final(self) == *old(self),
            },
    {
        if self.len == 0 {
            return None;
        }
        let s = self.front;
        if self.len > 1 {
            self.front = l.next_slot(s);
        }
        self.len = self.len - 1;
        self.start = Ghost(self.start@ + 1);
        Some(s)
    }

    /// Takes the slot at the back, if any.
    fn take_back<K, V>(&mut self, l: &DList<K, V>) -> (r: Option<usize>)
        requires
            old(self).fits(*l),
        ensures
            final(self).fits(*l),
            match r {
                Some(s) => {
                    &&& old(self).count() > 0
                    &&& s < l@.len()
                    &&& l.pos(s as int) == old(self).start() + old(self).count() - 1
                    &&& final(self).start() == old(self).start()
                    &&& final(self).count() == old(self).count() - 1
                },
                None => old(self).count() == 0 && *final(self) == *old(self),
            },
    {
        if self.len == 0 {
            return None;
        }
        let s = self.back;
        if self.len > 1 {
            self.back = l.prev_slot(s);
        }
        self.len = self.len - 1;
        Some(s)
    }
}

impl<'a, K, V> Iter<'a, K, V> {
    /// The entries still to come, front first.
    pub closed spec fn remaining(&self) -> Seq<(K, V)> {
        self.list@.subrange(self.start@, self.start@ + self.len)
    }

    pub closed spec fn wf(&self) -> bool {
        (Cursor { front: self.front, back: self.back, len: self.len, start: self.start }).fits(*self.list)
    }

    /// The next entry from the front.
    pub fn next(&mut self) -> (r: Option<(&'a K, &'a V)>)
        requires
            old(self).wf(),
        ensures
            final(self).wf(),
            match r {
                Some(e) => {
                    &&& old(self).remaining().len() > 0
                    &&& (*e.0, *e.1) == old(self).remaining()[0]
                    &&& final(self).remaining() == old(self).remaining().drop_first()
                },
                None => old(self).remaining().len() == 0 && final(self).remaining() == old(self).remaining(),
            },
    {
        let mut c = Cursor { front: self.front, back: self.back, len: self.len, start: self.start };
        let r = c.take_front(self.list);
        self.front = c.front;
        self.back = c.back;
        self.len = c.len;
        self.start = c.start;
        match r {
            Some(s) => {
                assert(self.remaining() =~= old(self).remaining().drop_first());
                Some((self.list.key_at(s), self.list.val_at(s)))
            },
            None => None,
        }
    }

    /// The next entry from the back.
    pub fn next_back(&mut self) -> (r: Option<(&'a K, &'a V)>)
        requires
            old(self).wf(),
        ensures
            final(self).wf(),
            match r {
                Some(e) => {
                    &&& old(self).remaining().len() > 0
                    &&& (*e.0, *e.1) == old(self).remaining().last()
                    &&& final(self).remaining() == old(self).remaining().drop_last()
                },
                None => old(self).remaining().len() == 0 && final(self).remaining() == old(self).remaining(),
            },
    {
        let mut c = Cursor { front: self.front, back: self.back, len: self.len, start: self.start };
        let r = c.take_back(self.list);
        self.front = c.front;
        self.back = c.back;
        self.len = c.len;
        self.start = c.start;
        match r {
            Some(s) => {
                assert(self.remaining() =~= old(self).remaining().drop_last());
                Some((self.list.key_at(s), self.list.val_at(s)))
            },
            None => None,
        }
    }

    /// The number of entries still to come.
    pub fn len(&self) -> (r: usize)
        requires
            self.wf(),
        ensures
            r == self.remaining().len(),
    {
        self.len
    }

    /// The exact bounds on the number of entries still to come.
    pub fn size_hint(&self) -> (r: (usize, Option<usize>))
        requires
            self.wf(),
        ensures
            r.0 == self.remaining().len(),
            r.1 == Some(self.remaining().len() as usize),
    {
        (self.len, Some(self.len))
    }

    /// The number of entries still to come.
    pub fn count(self) -> (r: usize)
        requires
            self.wf(),
        ensures
            r == self.remaining().len(),
    {
        self.len
    }

    /// An iterator at the same place.
    pub fn clone(&self) -> (r: Iter<'a, K, V>)
        ensures
            r == *self,
    {
        Iter { list: self.list, front: self.front, back: self.back, len: self.len, start: self.start }
    }
}

/// An iterator over the entries of a cache that gives a mutable reference to
/// each value, from the most recently used entry to the least recently used
/// (or backwards, with `next_back`).
///
/// The fields are public so that the contract of `LruCache::iter_mut` can
/// speak of the value the borrowed entries end with; outside the crate they
/// can only be read, or swapped between iterators.
pub struct IterMut<'a, K, V> {
    /// The entries of the cache, borrowed for the life of the iterator.
    pub entries: &'a mut DList<K, V>,
    /// Where the iterator stands in them.
    pub cursor: Cursor,
    /// The keys of the entries when the iterator was made.
    pub keys: Ghost<Seq<K>>,
}

impl<'a, K, V> IterMut<'a, K, V> {
    /// The entries still to come, front first.
    pub open spec fn remaining(&self) -> Seq<(K, V)> {
        (*self.entries)@.subrange(self.cursor.start(), self.cursor.start() + self.cursor.count())
    }

    pub open spec fn wf(&self) -> bool {
        &&& self.cursor.fits(*self.entries)
        &&& self.keeps(*self.entries)
    }

    /// `l` is a well-formed list with the keys the iterator started with.
    pub open spec fn keeps(&self, l: DList<K, V>) -> bool {
        &&& l.wf()
        &&& keys_of(l@) == self.keys@
    }

    /// The next entry from the front, with a mutable reference to its value.
    pub fn next(&mut self) -> (r: Option<(&K, &mut V)>)
        requires
            old(self).wf(),
        ensures
            final(self).wf(),
            final(self).keys == old(self).keys,
            *final(old(self).entries) == *final(final(self).entries),
            match r {
                Some(e) => {
                    let p = old(self).cursor.start();
                    &&& old(self).remaining().len() > 0
                    &&& (*e.0, *e.1) == old(self).remaining()[0]
                    &&& final(self).cursor.start() == p + 1
                    &&& final(self).cursor.count() == old(self).cursor.count() - 1
                    &&& final(self).remaining() == old(self).remaining().drop_first()
                    &&& (*final(self).entries)@ == (*old(self).entries)@.update(p, (*e.0, *final(e.1)))
                },
                None => {
                    &&& old(self).remaining().len() == 0
                    &&& final(self).cursor == old(self).cursor
                    &&& *final(self).entries == *old(self).entries
                },
            },
    {
        match self.cursor.take_front(self.entries) {
            Some(s) => {
                proof { self.entries.lemma_pos_in_range(s as int); }
                let ghost before = (*self.entries)@;
                let ghost p = self.entries.pos(s as int);
                let r = self.entries.entry_mut(s);
                proof { lemma_update_value_keys(before, p, *final(r.1)); }
                Some(r)
            },
            None => None,
        }
    }

    /// The next entry from the back, with a mutable reference to its value.
    pub fn next_back(&mut self) -> (r: Option<(&K, &mut V)>)
        requires
            old(self).wf(),
        ensures
            final(self).wf(),
            final(self).keys == old(self).keys,
            *final(old(self).entries) == *final(final(self).entries),
            match r {
                Some(e) => {
                    let p = old(self).cursor.start() + old(self).cursor.count() - 1;
                    &&& old(self).remaining().len() > 0
                    &&& (*e.0, *e.1) == old(self).remaining().last()
                    &&& final(self).cursor.start() == old(self).cursor.start()
                    &&& final(self).cursor.count() == old(self).cursor.count() - 1
                    &&& final(self).remaining() == old(self).remaining().drop_last()
                    &&& (*final(self).entries)@ == (*old(self).entries)@.update(p, (*e.0, *final(e.1)))
                },
                None => {
                    &&& old(self).remaining().len() == 0
                    &&& final(self).cursor == old(self).cursor
                    &&& *final(self).entries == *old(self).entries
                },
            },
    {
        match self.cursor.take_back(self.entries) {
            Some(s) => {
                proof { self.entries.lemma_pos_in_range(s as int); }
                let ghost before = (*self.entries)@;
                let ghost p = self.entries.pos(s as int);
                let r = self.entries.entry_mut(s);
                proof { lemma_update_value_keys(before, p, *final(r.1)); }
                Some(r)
            },
            None => None,
        }
    }

    /// The number of entries still to come.
    pub fn len(&self) -> (r: usize)
        requires
            self.wf(),
        ensures
            r == self.remaining().len(),
    {
        self.cursor.len
    }

    /// The exact bounds on the number of entries still to come.
    pub fn size_hint(&self) -> (r: (usize, Option<usize>))
        requires
            self.wf(),
        ensures
            r.0 == self.remaining().len(),
            r.1 == Some(self.remaining().len() as usize),
    {
        (self.cursor.len, Some(self.cursor.len))
    }

    /// The number of entries still to come.
    pub fn count(self) -> (r: usize)
        requires
            self.wf(),
        ensures
            r == self.remaining().len(),
    {
        self.cursor.len
    }
}

/// An iterator that moves the entries out of a cache, from the least
/// recently used to the most recently used.
pub struct IntoIter<K, V> where K: Hash + Eq {
    cache: LruCache<K, V>,
}

impl<K: Hash + Eq, V> IntoIter<K, V> {
    /// The entries still to come, in the cache's order: the last comes first.
    pub closed spec fn view(&self) -> Seq<(K, V)> {
        self.cache@
    }

    pub closed spec fn wf(&self) -> bool {
        self.cache.wf()
    }

    /// Moves out the least recently used entry, if any.
    pub fn next(&mut self) -> (r: Option<(K, V)>)
        requires
            old(self).wf(),
        ensures
            final(self).wf(),
            old(self)@.len() == 0 ==> r == None::<(K, V)> && final(self)@ == old(self)@,
            old(self)@.len() > 0 ==> r == Some(old(self)@.last()) && final(self)@ == old(self)@.drop_last(),
    {
        self.cache.pop_lru()
    }

    /// The number of entries still to come.
    pub fn len(&self) -> (r: usize)
        requires
            self.wf(),
        ensures
            r == self@.len(),
    {
        self.cache.len()
    }

    /// The exact bounds on the number of entries still to come.
    pub fn size_hint(&self) -> (r: (usize, Option<usize>))
        requires
            self.wf(),
        ensures
            r.0 == self@.len(),
            r.1 == Some(self@.len() as usize),
    {
        let len = self.cache.len();
        (len, Some(len))
    }

    /// The number of entries still to come.
    pub fn count(self) -> (r: usize)
        requires
            self.wf(),
        ensures
            r == self@.len(),
    {
        self.cache.len()
    }
}

impl<K: Hash + Eq, V, S: BuildHasher> LruCache<K, V, S> {
    /// An iterator over the entries, most recently used first.
    pub fn iter(&self) -> (r: Iter<'_, K, V>)
        requires
            self.wf(),
        ensures
            r.wf(),
            r.remaining() == self@,
    {
        let c = Cursor::all(&self.list);
        let r = Iter { list: &self.list, front: c.front, back: c.back, len: c.len, start: c.start };
        assert(r.remaining() =~= self@);
        r
    }

    /// An iterator over the entries, most recently used first, with a
    /// mutable reference to each value. When the iterator is done, the
    /// cache holds what the writes through it left, and is well formed again
    /// when the entries end with their keys unchanged.
    pub fn iter_mut(&mut self) -> (r: IterMut<'_, K, V>)
        requires
            old(self).wf(),
        ensures
            r.wf(),
            r.remaining() == old(self)@,
            (*r.entries)@ == old(self)@,
            r.cursor.start() == 0,
            r.cursor.count() == old(self)@.len(),
            r.keys@ == keys_of(old(self)@),
            r.keeps(*final(r.entries)) ==> final(self).wf(),
            final(self).cap() == old(self).cap(),
            final(self)@ == (*final(r.entries))@,
    {
        let c = Cursor::all(&self.list);
        let ghost cap = self.cap;
        let ghost start = self@;
        let keys = Ghost(keys_of(start));
        let r = IterMut { entries: &mut self.list, cursor: c, keys };
        assert(r.remaining() =~= old(self)@);
        proof {
            assert forall|b: Seq<(K, V)>| #[trigger] keys_of(b) == keys_of(start) implies keys_unique(b)
                && b.len() == start.len() by {
                lemma_same_keys_unique(start, b);
            }
        }
        r
    }
}

impl<K: Hash + Eq, V> LruCache<K, V> {
    /// Turns the cache into an iterator that moves its entries out, least
    /// recently used first.
    pub fn into_iter(self) -> (r: IntoIter<K, V>)
        requires
            self.wf(),
        ensures
            r.wf(),
            r@ == self@,
    {
        IntoIter { cache: self }
    }
}

} // verus!
