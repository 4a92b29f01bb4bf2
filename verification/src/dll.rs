//! A doubly linked list of key-value entries kept in a vector arena.
//!
//! Entries are linked through slot indices. The ghost sequence `order` lists
//! the slots from the front of the list to the back and `rank` is its inverse.

use vstd::prelude::*;

verus! {

/// An entry of the list with the slots of its neighbours.
struct Node<K, V> {
    key: K,
    val: V,
    prev: usize,
    next: usize,
}

impl<K, V> Node<K, V> {
    /// A node holding `key` and `val`, not yet linked.
    fn new(key: K, val: V) -> (r: Self)
        ensures
            r.key == key,
            r.val == val,
    {
        Node { key, val, prev: 0, next: 0 }
    }
}

pub struct DList<K, V> {
    nodes: Vec<Node<K, V>>,
    head: usize,
    tail: usize,
    order: Ghost<Seq<usize>>,
    rank: Ghost<Seq<int>>,
}

impl<K, V> DList<K, V> {
    /// Number of entries.
    pub closed spec fn spec_len(&self) -> nat {
        self.nodes@.len()
    }

    /// The slot that holds the entry at position `p`.
    pub closed spec fn slot(&self, p: int) -> usize {
        self.order@[p]
    }

    /// The position of the entry held in slot `s`.
    pub closed spec fn pos(&self, s: int) -> int {
        self.rank@[s]
    }

    /// The entry at position `p`.
    pub closed spec fn entry(&self, p: int) -> (K, V) {
        let n = self.nodes@[self.order@[p] as int];
        (n.key, n.val)
    }

    /// The entries from front to back.
    pub closed spec fn view(&self) -> Seq<(K, V)> {
        Seq::new(self.nodes@.len(), |p: int| self.entry(p))
    }

    pub closed spec fn wf(&self) -> bool {
        let n = self.nodes@.len() as int;
        &&& self.order@.len() == n
        &&& self.rank@.len() == n
        &&& forall|p: int|
            0 <= p < n ==> #[trigger] self.order@[p] < n && self.rank@[self.order@[p] as int] == p
        &&& forall|s: int|
            0 <= s < n ==> 0 <= #[trigger] self.rank@[s] < n && self.order@[self.rank@[s]] == s
        &&& forall|s: int|
            0 <= s < n ==> {
                let p = self.rank@[s];
                &&& (p + 1 < n ==> (#[trigger] self.nodes@[s]).next == self.order@[p + 1])
                &&& (p > 0 ==> self.nodes@[s].prev == self.order@[p - 1])
            }
        &&& n > 0 ==> self.head == self.order@[0] && self.tail == self.order@[n - 1]
    }

    pub(crate) fn new() -> (r: Self)
        ensures
            r.wf(),
            r@ == Seq::<(K, V)>::empty(),
    {
        let r = DList { nodes: Vec::new(), head: 0, tail: 0, order: Ghost(Seq::empty()), rank: Ghost(Seq::empty()) };
        assert(r@ =~= Seq::<(K, V)>::empty());
        r
    }

    pub(crate) fn len(&self) -> (r: usize)
        requires
            self.wf(),
        ensures
            r == self@.len(),
    {
        self.nodes.len()
    }

    /// Inserts a new entry at the front.
    pub(crate) fn push_front(&mut self, k: K, v: V)
        requires
            old(self).wf(),
            old(self)@.len() < usize::MAX,
        ensures
            final(self).wf(),
            final(self)@ == seq![(k, v)] + old(self)@,
    {
        let n = self.nodes.len();
        let old_head = self.head;
        let mut node = Node::new(k, v);
        node.next = old_head;
        self.nodes.push(node);
        if n > 0 {
            self.nodes[old_head].prev = n;
        } else {
            self.tail = n;
        }
        self.head = n;
        let ghost old_order = self.order@;
        let ghost old_rank = self.rank@;
        self.order = Ghost(seq![n] + old_order);
        self.rank = Ghost(Seq::new((n + 1) as nat, |s: int| if s == n { 0 } else { old_rank[s] + 1 }));
        assert(self@ =~= seq![(k, v)] + old(self)@);
    }

    /// Moves the entry held in slot `s` to the front.
    pub(crate) fn move_to_front(&mut self, s: usize)
        requires
            old(self).wf(),
            s < old(self)@.len(),
        ensures
            final(self).wf(),
            final(self)@ == seq![old(self)@[old(self).pos(s as int)]] + old(self)@.remove(old(self).pos(s as int)),
            final(self).pos(s as int) == 0,
    {
        let ghost n = self.nodes@.len() as int;
        let ghost p = self.rank@[s as int];
        if s == self.head {
            assert(self@.remove(p) =~= self@.subrange(1, n));
            assert(self@ =~= seq![self@[0]] + self@.subrange(1, n));
            return;
        }
        assert(p > 0);
        let prev = self.nodes[s].prev;
        let next = self.nodes[s].next;
        let old_head = self.head;
        self.nodes[prev].next = next;
        if s == self.tail {
            self.tail = prev;
        } else {
            self.nodes[next].prev = prev;
        }
        self.nodes[s].next = old_head;
        self.nodes[old_head].prev = s;
        self.head = s;
        let ghost old_order = self.order@;
        let ghost old_rank = self.rank@;
        self.order = Ghost(Seq::new(n as nat, |q: int| if q == 0 { s } else if q <= p { old_order[q - 1] } else { old_order[q] }));
        self.rank = Ghost(Seq::new(n as nat, |x: int| if x == s { 0 } else if old_rank[x] < p { old_rank[x] + 1 } else { old_rank[x] }));
        assert forall|q: int| 0 <= q < n implies #[trigger] self.order@[q] < n && self.rank@[self.order@[q] as int] == q by {
            if q > 0 && q <= p {
                assert(old_rank[old_order[q - 1] as int] == q - 1);
            } else if q > p {
                assert(old_rank[old_order[q] as int] == q);
            }
        }
        assert forall|x: int| 0 <= x < n implies 0 <= #[trigger] self.rank@[x] < n && self.order@[self.rank@[x]] == x by {
            assert(old_order[old_rank[x]] == x);
            if x != s {
                assert(old_rank[x] != p);
            }
        }
        assert(self@ =~= seq![old(self)@[p]] + old(self)@.remove(p));
    }

    /// Moves the entry held in slot `s` to the back.
    pub(crate) fn move_to_back(&mut self, s: usize)
        requires
            old(self).wf(),
            s < old(self)@.len(),
        ensures
            final(self).wf(),
            final(self)@ == old(self)@.remove(old(self).pos(s as int)).push(old(self)@[old(self).pos(s as int)]),
            final(self).pos(s as int) == old(self)@.len() - 1,
    {
        let ghost n = self.nodes@.len() as int;
        let ghost p = self.rank@[s as int];
        if s == self.tail {
            assert(self@.remove(p) =~= self@.subrange(0, n - 1));
            assert(self@ =~= self@.subrange(0, n - 1).push(self@[n - 1]));
            return;
        }
        assert(p < n - 1);
        let prev = self.nodes[s].prev;
        let next = self.nodes[s].next;
        let old_tail = self.tail;
        self.nodes[next].prev = prev;
        if s == self.head {
            self.head = next;
        } else {
            self.nodes[prev].next = next;
        }
        self.nodes[s].prev = old_tail;
        self.nodes[old_tail].next = s;
        self.tail = s;
        let ghost old_order = self.order@;
        let ghost old_rank = self.rank@;
        self.order = Ghost(Seq::new(n as nat, |q: int| if q == n - 1 { s } else if q >= p { old_order[q + 1] } else { old_order[q] }));
        self.rank = Ghost(Seq::new(n as nat, |x: int| if x == s { n - 1 } else if old_rank[x] > p { old_rank[x] - 1 } else { old_rank[x] }));
        assert forall|q: int| 0 <= q < n implies #[trigger] self.order@[q] < n && self.rank@[self.order@[q] as int] == q by {
            if q < n - 1 && q >= p {
                assert(old_rank[old_order[q + 1] as int] == q + 1);
            } else if q < p {
                assert(old_rank[old_order[q] as int] == q);
            }
        }
        assert forall|x: int| 0 <= x < n implies 0 <= #[trigger] self.rank@[x] < n && self.order@[self.rank@[x]] == x by {
            assert(old_order[old_rank[x]] == x);
            if x != s {
                assert(old_rank[x] != p);
            }
        }
        assert(self@ =~= old(self)@.remove(p).push(old(self)@[p]));
    }

    /// Removes the entry at the back and returns it.
    #[verifier::spinoff_prover]
    #[verifier::rlimit(40)]
    pub(crate) fn pop_back(&mut self) -> (r: (K, V))
        requires
            old(self).wf(),
            old(self)@.len() > 0,
        ensures
            final(self).wf(),
            r == old(self)@.last(),
            final(self)@ == old(self)@.drop_last(),
    {
        let n = self.nodes.len();
        let t = self.tail;
        let last = n - 1;
        let new_tail = self.nodes[t].prev;
        let ghost old_nodes = self.nodes@;
        let ghost old_order = self.order@;
        let ghost old_rank = self.rank@;
        let ghost q = old_rank[last as int];
        let node = self.nodes.swap_remove(t);
        if n > 1 {
            self.tail = new_tail;
        }
        if t != last {
            let mp = self.nodes[t].prev;
            let mn = self.nodes[t].next;
            if self.head == last {
                self.head = t;
            } else {
                self.nodes[mp].next = t;
            }
            if self.tail == last {
                self.tail = t;
            } else {
                self.nodes[mn].prev = t;
            }
        }
        let ghost m = n - 1;
        self.order = Ghost(Seq::new(m as nat, |i: int| if old_order[i] == last { t } else { old_order[i] }));
        self.rank = Ghost(Seq::new(m as nat, |x: int| if x == t { old_rank[last as int] } else { old_rank[x] }));
        proof {
            assert forall|i: int| 0 <= i < m implies #[trigger] self.order@[i] < m && self.rank@[self.order@[i] as int] == i by {
                assert(old_rank[old_order[i] as int] == i);
                assert(old_order[m] == t);
            }
            assert forall|x: int| 0 <= x < m implies 0 <= #[trigger] self.rank@[x] < m && self.order@[self.rank@[x]] == x by {
                assert(old_order[old_rank[x]] == x);
                assert(old_order[old_rank[last as int]] == last);
            }
            assert forall|x: int| 0 <= x < m implies {
                let p = self.rank@[x];
                &&& (p + 1 < m ==> (#[trigger] self.nodes@[x]).next == self.order@[p + 1])
                &&& (p > 0 ==> self.nodes@[x].prev == self.order@[p - 1])
            } by {
                let p = self.rank@[x];
                let y = if x == t { last as int } else { x };
                assert(old_rank[y] == p);
                if p + 1 < m {
                    assert(old_rank[old_order[p + 1] as int] == p + 1);
                }
                if p > 0 {
                    assert(old_rank[old_order[p - 1] as int] == p - 1);
                }
            }
            assert(self@ =~= old(self)@.drop_last());
        }
        (node.key, node.val)
    }

    /// Removes the entry held in slot `s` and returns it.
    pub(crate) fn remove(&mut self, s: usize) -> (r: (K, V))
        requires
            old(self).wf(),
            s < old(self)@.len(),
        ensures
            final(self).wf(),
            r == old(self)@[old(self).pos(s as int)],
            final(self)@ == old(self)@.remove(old(self).pos(s as int)),
    {
        self.move_to_back(s);
        self.pop_back()
    }

    /// Empties the list.
    pub(crate) fn clear(&mut self)
        ensures
            final(self).wf(),
            final(self)@ == Seq::<(K, V)>::empty(),
    {
        self.nodes.clear();
        self.order = Ghost(Seq::empty());
        self.rank = Ghost(Seq::empty());
        assert(self@ =~= Seq::<(K, V)>::empty());
    }

    /// Every slot below the length holds an entry, at a position below the length.
    pub proof fn lemma_pos_in_range(&self, s: int)
        requires
            self.wf(),
            0 <= s < self@.len(),
        ensures
            0 <= self.pos(s) < self@.len(),
            self.slot(self.pos(s)) == s,
    {
    }

    /// The slot at a position is below the length and has that position.
    pub proof fn lemma_slot_in_range(&self, p: int)
        requires
            self.wf(),
            0 <= p < self@.len(),
        ensures
            self.slot(p) < self@.len(),
            self.pos(self.slot(p) as int) == p,
    {
    }

    /// The slot of the entry at the front.
    pub(crate) fn front_slot(&self) -> (r: usize)
        requires
            self.wf(),
            self@.len() > 0,
        ensures
            r < self@.len(),
            self.pos(r as int) == 0,
    {
        self.head
    }

    /// The slot of the entry at the back.
    pub(crate) fn back_slot(&self) -> (r: usize)
        requires
            self.wf(),
            self@.len() > 0,
        ensures
            r < self@.len(),
            self.pos(r as int) == self@.len() - 1,
    {
        self.tail
    }

    /// The slot of the entry after the one in slot `s`.
    pub(crate) fn next_slot(&self, s: usize) -> (r: usize)
        requires
            self.wf(),
            s < self@.len(),
            self.pos(s as int) + 1 < self@.len(),
        ensures
            r < self@.len(),
            self.pos(r as int) == self.pos(s as int) + 1,
    {
        proof { self.lemma_slot_in_range(self.pos(s as int) + 1); }
        self.nodes[s].next
    }

    /// The slot of the entry before the one in slot `s`.
    pub(crate) fn prev_slot(&self, s: usize) -> (r: usize)
        requires
            self.wf(),
            s < self@.len(),
            self.pos(s as int) > 0,
        ensures
            r < self@.len(),
            self.pos(r as int) == self.pos(s as int) - 1,
    {
        proof { self.lemma_slot_in_range(self.pos(s as int) - 1); }
        self.nodes[s].prev
    }

    pub(crate) fn key_at(&self, s: usize) -> (r: &K)
        requires
            self.wf(),
            s < self@.len(),
        ensures
            *r == self@[self.pos(s as int)].0,
    {
        &self.nodes[s].key
    }

    pub(crate) fn val_at(&self, s: usize) -> (r: &V)
        requires
            self.wf(),
            s < self@.len(),
        ensures
            *r == self@[self.pos(s as int)].1,
    {
        &self.nodes[s].val
    }

    /// Replaces the key and value held in slot `s`, returning the old ones.
    pub(crate) fn replace(&mut self, s: usize, k: K, v: V) -> (r: (K, V))
        requires
            old(self).wf(),
            s < old(self)@.len(),
        ensures
            final(self).wf(),
            r == old(self)@[old(self).pos(s as int)],
            final(self)@ == old(self)@.update(old(self).pos(s as int), (k, v)),
            final(self).pos(s as int) == old(self).pos(s as int),
    {
        let mut k = k;
        let mut v = v;
        let ghost p = self.rank@[s as int];
        let ghost old_view = self@;
        std::mem::swap(&mut self.nodes[s].key, &mut k);
        std::mem::swap(&mut self.nodes[s].val, &mut v);
        assert(self@ =~= old_view.update(p, (self.nodes@[s as int].key, self.nodes@[s as int].val)));
        (k, v)
    }

    /// A mutable reference to the value held in slot `s`.
    pub(crate) fn val_mut(&mut self, s: usize) -> (r: &mut V)
        requires
            old(self).wf(),
            s < old(self)@.len(),
        ensures
            *r == old(self)@[old(self).pos(s as int)].1,
            final(self).wf(),
            final(self)@ == old(self)@.update(
                old(self).pos(s as int),
                (old(self)@[old(self).pos(s as int)].0, *final(r)),
            ),
            forall|x: int| #[trigger] final(self).pos(x) == old(self).pos(x),
    {
        &mut self.nodes[s].val
    }

    /// The key held in slot `s`, with a mutable reference to its value.
    pub(crate) fn entry_mut(&mut self, s: usize) -> (r: (&K, &mut V))
        requires
            old(self).wf(),
            s < old(self)@.len(),
        ensures
            *r.0 == old(self)@[old(self).pos(s as int)].0,
            *r.1 == old(self)@[old(self).pos(s as int)].1,
            final(self).wf(),
            final(self)@ == old(self)@.update(
                old(self).pos(s as int),
                (old(self)@[old(self).pos(s as int)].0, *final(r.1)),
            ),
            forall|x: int| #[trigger] final(self).pos(x) == old(self).pos(x),
    {
        let node = &mut self.nodes[s];
        (&node.key, &mut node.val)
    }

    /// The slot holding an entry whose key is `k`, if there is one.
    pub(crate) fn find(&self, k: &K) -> (r: Option<usize>)
        where
            K: PartialEq,
        requires
            self.wf(),
            vstd::laws_eq::obeys_concrete_eq::<K>(),
        ensures
            match r {
                Some(s) => s < self@.len() && self@[self.pos(s as int)].0 == *k,
                None => forall|p: int| 0 <= p < self@.len() ==> self@[p].0 != *k,
            },
    {
        proof { reveal(vstd::laws_eq::obeys_concrete_eq); }
        let n = self.nodes.len();
        let mut i: usize = 0;
        while i < n
            invariant
                self.wf(),
                n == self@.len(),
                i <= n,
                vstd::laws_eq::obeys_concrete_eq::<K>(),
                forall|x: int| 0 <= x < i ==> self.nodes@[x].key != *k,
            decreases n - i,
        {
            proof { reveal(vstd::laws_eq::obeys_concrete_eq); }
            let same = self.nodes[i].key == *k;
            if same {
                proof {
                    self.lemma_pos_in_range(i as int);
                    assert(self@[self.pos(i as int)].0 == self.nodes@[i as int].key);
                }
                return Some(i);
            }
            i += 1;
        }
        proof {
            assert forall|p: int| 0 <= p < self@.len() implies self@[p].0 != *k by {
                self.lemma_slot_in_range(p);
                assert(self@[p].0 == self.nodes@[self.slot(p) as int].key);
            }
        }
        None
    }

    /// Replaces the value held in slot `s`, returning the old one.
    pub(crate) fn swap_val(&mut self, s: usize, v: V) -> (r: V)
        requires
            old(self).wf(),
            s < old(self)@.len(),
        ensures
            final(self).wf(),
            r == old(self)@[old(self).pos(s as int)].1,
            final(self)@ == old(self)@.update(
                old(self).pos(s as int),
                (old(self)@[old(self).pos(s as int)].0, v),
            ),
            final(self).pos(s as int) == old(self).pos(s as int),
    {
        let mut v = v;
        let ghost p = self.rank@[s as int];
        let ghost old_view = self@;
        std::mem::swap(&mut self.nodes[s].val, &mut v);
        assert(self@ =~= old_view.update(p, (old_view[p].0, self.nodes@[s as int].val)));
        v
    }

    /// A list of clones of the entries, in the same order.
    pub(crate) fn clone_entries(&self) -> (r: DList<K, V>)
        where
            K: Clone,
            V: Clone,
        requires
            self.wf(),
        ensures
            r.wf(),
            r@.len() == self@.len(),
            forall|p: int|
                0 <= p < self@.len() ==> vstd::pervasive::cloned(self@[p].0, #[trigger] r@[p].0)
                    && vstd::pervasive::cloned(self@[p].1, r@[p].1),
    {
        let n = self.nodes.len();
        let mut nodes: Vec<Node<K, V>> = Vec::new();
        let mut i: usize = 0;
        while i < n
            invariant
                self.wf(),
                n == self.nodes@.len(),
                i <= n,
                nodes@.len() == i,
                forall|x: int|
                    #![trigger nodes@[x]]
                    0 <= x < i ==> {
                        &&& vstd::pervasive::cloned(self.nodes@[x].key, nodes@[x].key)
                        &&& vstd::pervasive::cloned(self.nodes@[x].val, nodes@[x].val)
                        &&& nodes@[x].prev == self.nodes@[x].prev
                        &&& nodes@[x].next == self.nodes@[x].next
                    },
            decreases n - i,
        {
            let key = self.nodes[i].key.clone();
            let val = self.nodes[i].val.clone();
            nodes.push(Node { key, val, prev: self.nodes[i].prev, next: self.nodes[i].next });
            i += 1;
        }
        let r = DList { nodes, head: self.head, tail: self.tail, order: self.order, rank: self.rank };
        assert forall|p: int| 0 <= p < self@.len() implies vstd::pervasive::cloned(self@[p].0, #[trigger] r@[p].0)
            && vstd::pervasive::cloned(self@[p].1, r@[p].1) by {
            let x = self.order@[p] as int;
            assert(nodes@[x].key == r@[p].0);
        }
        r
    }

    /// The slot holding an entry whose key is `k`, if there is one, found by
    /// walking the list from the front.
    pub(crate) fn find_from_front(&self, k: &K) -> (r: Option<usize>)
        where
            K: PartialEq,
        requires
            self.wf(),
            vstd::laws_eq::obeys_concrete_eq::<K>(),
        ensures
            match r {
                Some(s) => s < self@.len() && self@[self.pos(s as int)].0 == *k,
                None => forall|p: int| 0 <= p < self@.len() ==> self@[p].0 != *k,
            },
    {
        let n = self.nodes.len();
        if n == 0 {
            return None;
        }
        let mut cur = self.head;
        let mut p: usize = 0;
        loop
            invariant
                self.wf(),
                n == self@.len(),
                p < n,
                cur < n,
                self.pos(cur as int) == p,
                vstd::laws_eq::obeys_concrete_eq::<K>(),
                forall|q: int| 0 <= q < p ==> self@[q].0 != *k,
            decreases n - p,
        {
            proof {
                reveal(vstd::laws_eq::obeys_concrete_eq);
                self.lemma_pos_in_range(cur as int);
            }
            let same = self.nodes[cur].key == *k;
            assert(self@[p as int].0 == self.nodes@[cur as int].key);
            if same {
                return Some(cur);
            }
            if p + 1 == n {
                return None;
            }
            cur = self.next_slot(cur);
            p = p + 1;
        }
    }
}

} // verus!
