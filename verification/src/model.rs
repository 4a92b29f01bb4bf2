//! The mathematical model of a cache: the sequence of its entries, most
//! recently used first. Every operation of the caches is stated over the
//! functions of this module.

use vstd::prelude::*;

verus! {

/// No two entries share a key.
pub open spec fn keys_unique<K, V>(s: Seq<(K, V)>) -> bool {
    forall|i: int, j: int|
        0 <= i < s.len() && 0 <= j < s.len() && i != j ==> #[trigger] s[i].0 != #[trigger] s[j].0
}

/// The keys of the entries, in order.
pub open spec fn keys_of<K, V>(s: Seq<(K, V)>) -> Seq<K> {
    s.map_values(|e: (K, V)| e.0)
}

/// Some entry has key `k`.
pub open spec fn contains_key<K, V>(s: Seq<(K, V)>, k: K) -> bool {
    exists|i: int| 0 <= i < s.len() && #[trigger] s[i].0 == k
}

/// The position of the entry with key `k` (meaningful when there is one).
pub open spec fn index_of<K, V>(s: Seq<(K, V)>, k: K) -> int {
    choose|i: int| 0 <= i < s.len() && #[trigger] s[i].0 == k
}

/// The value stored under `k`, if any.
pub open spec fn lookup<K, V>(s: Seq<(K, V)>, k: K) -> Option<V> {
    if contains_key(s, k) {
        Some(s[index_of(s, k)].1)
    } else {
        None
    }
}

/// The entry at position `i` moved to the front.
pub open spec fn to_front<K, V>(s: Seq<(K, V)>, i: int) -> Seq<(K, V)> {
    seq![s[i]] + s.remove(i)
}

/// The entry at position `i` moved to the back.
pub open spec fn to_back<K, V>(s: Seq<(K, V)>, i: int) -> Seq<(K, V)> {
    s.remove(i).push(s[i])
}

/// The entries after a use of `k`: its entry, if any, becomes the most recently used.
pub open spec fn touched<K, V>(s: Seq<(K, V)>, k: K) -> Seq<(K, V)> {
    if contains_key(s, k) {
        to_front(s, index_of(s, k))
    } else {
        s
    }
}

/// The entries after `k` is marked least recently used.
pub open spec fn demoted<K, V>(s: Seq<(K, V)>, k: K) -> Seq<(K, V)> {
    if contains_key(s, k) {
        to_back(s, index_of(s, k))
    } else {
        s
    }
}

/// The entries without the one with key `k`.
pub open spec fn without<K, V>(s: Seq<(K, V)>, k: K) -> Seq<(K, V)> {
    if contains_key(s, k) {
        s.remove(index_of(s, k))
    } else {
        s
    }
}

/// A cache of capacity `cap` full of entries `s` is at its capacity.
pub open spec fn is_full<K, V>(s: Seq<(K, V)>, cap: nat) -> bool {
    s.len() >= cap
}

/// The entries after a new key `k` is added with value `v`: it becomes the
/// most recently used entry, and when the cache is full the least recently
/// used entry leaves.
pub open spec fn with_new<K, V>(s: Seq<(K, V)>, cap: nat, k: K, v: V) -> Seq<(K, V)> {
    if is_full(s, cap) {
        seq![(k, v)] + s.drop_last()
    } else {
        seq![(k, v)] + s
    }
}

/// The entries after `put(k, v)`: the value of `k` is replaced and `k` moves
/// to the front, or `k` is added as by `with_new`.
pub open spec fn put_entries<K, V>(s: Seq<(K, V)>, cap: nat, k: K, v: V) -> Seq<(K, V)> {
    if contains_key(s, k) {
        seq![(k, v)] + s.remove(index_of(s, k))
    } else {
        with_new(s, cap, k, v)
    }
}

/// What `push(k, v)` hands back: the old entry of `k`, or the entry that left
/// to make room, or nothing.
pub open spec fn push_result<K, V>(s: Seq<(K, V)>, cap: nat, k: K) -> Option<(K, V)> {
    if contains_key(s, k) {
        Some((k, s[index_of(s, k)].1))
    } else if is_full(s, cap) {
        Some(s.last())
    } else {
        None
    }
}

/// Each entry of `b` is a clone of the entry of `a` at the same position.
pub open spec fn clones_of<K: Clone, V: Clone>(a: Seq<(K, V)>, b: Seq<(K, V)>) -> bool {
    &&& a.len() == b.len()
    &&& forall|p: int|
        0 <= p < b.len() ==> vstd::pervasive::cloned(a[p].0, #[trigger] b[p].0)
            && vstd::pervasive::cloned(a[p].1, b[p].1)
}

/// The entries of an empty cache of capacity `cap` after `put` of each entry
/// of `ks`, the last one first.
pub open spec fn put_all<K, V>(cap: nat, ks: Seq<(K, V)>) -> Seq<(K, V)>
    decreases ks.len(),
{
    if ks.len() == 0 {
        Seq::empty()
    } else {
        put_entries(put_all(cap, ks.drop_first()), cap, ks[0].0, ks[0].1)
    }
}

/// In a sequence with unique keys, the entry at `i` is the one found for its key.
pub proof fn lemma_index_of<K, V>(s: Seq<(K, V)>, i: int)
    requires
        keys_unique(s),
        0 <= i < s.len(),
    ensures
        contains_key(s, s[i].0),
        index_of(s, s[i].0) == i,
        lookup(s, s[i].0) == Some(s[i].1),
{
    assert(s[i].0 == s[i].0);
    let j = index_of(s, s[i].0);
    assert(s[j].0 == s[i].0);
}

/// Moving an entry to the front keeps the keys unique.
pub proof fn lemma_to_front_unique<K, V>(s: Seq<(K, V)>, i: int)
    requires
        keys_unique(s),
        0 <= i < s.len(),
    ensures
        keys_unique(to_front(s, i)),
        to_front(s, i).len() == s.len(),
{
    let t = to_front(s, i);
    assert forall|a: int, b: int| 0 <= a < t.len() && 0 <= b < t.len() && a != b implies #[trigger] t[a].0 != #[trigger] t[b].0 by {
        let ia = if a == 0 { i } else if a - 1 < i { a - 1 } else { a };
        let ib = if b == 0 { i } else if b - 1 < i { b - 1 } else { b };
        assert(t[a] == s[ia]);
        assert(t[b] == s[ib]);
    }
}

/// Moving an entry to the back keeps the keys unique.
pub proof fn lemma_to_back_unique<K, V>(s: Seq<(K, V)>, i: int)
    requires
        keys_unique(s),
        0 <= i < s.len(),
    ensures
        keys_unique(to_back(s, i)),
        to_back(s, i).len() == s.len(),
{
    let t = to_back(s, i);
    assert forall|a: int, b: int| 0 <= a < t.len() && 0 <= b < t.len() && a != b implies #[trigger] t[a].0 != #[trigger] t[b].0 by {
        let ia = if a == s.len() - 1 { i } else if a < i { a } else { a + 1 };
        let ib = if b == s.len() - 1 { i } else if b < i { b } else { b + 1 };
        assert(t[a] == s[ia]);
        assert(t[b] == s[ib]);
    }
}

/// Removing an entry keeps the keys unique.
pub proof fn lemma_remove_unique<K, V>(s: Seq<(K, V)>, i: int)
    requires
        keys_unique(s),
        0 <= i < s.len(),
    ensures
        keys_unique(s.remove(i)),
{
    let t = s.remove(i);
    assert forall|a: int, b: int| 0 <= a < t.len() && 0 <= b < t.len() && a != b implies #[trigger] t[a].0 != #[trigger] t[b].0 by {
        let ia = if a < i { a } else { a + 1 };
        let ib = if b < i { b } else { b + 1 };
        assert(t[a] == s[ia]);
        assert(t[b] == s[ib]);
    }
}

/// A prefix of a sequence with unique keys has unique keys.
pub proof fn lemma_prefix_unique<K, V>(s: Seq<(K, V)>, n: int)
    requires
        keys_unique(s),
        0 <= n <= s.len(),
    ensures
        keys_unique(s.subrange(0, n)),
{
    let t = s.subrange(0, n);
    assert forall|a: int, b: int| 0 <= a < t.len() && 0 <= b < t.len() && a != b implies #[trigger] t[a].0 != #[trigger] t[b].0 by {
        assert(t[a] == s[a]);
        assert(t[b] == s[b]);
    }
}

/// Adding an entry with a new key in front keeps the keys unique.
pub proof fn lemma_push_front_unique<K, V>(s: Seq<(K, V)>, k: K, v: V)
    requires
        keys_unique(s),
        !contains_key(s, k),
    ensures
        keys_unique(seq![(k, v)] + s),
{
    let t = seq![(k, v)] + s;
    assert forall|a: int, b: int| 0 <= a < t.len() && 0 <= b < t.len() && a != b implies #[trigger] t[a].0 != #[trigger] t[b].0 by {
        if a == 0 {
            assert(t[b] == s[b - 1]);
        } else if b == 0 {
            assert(t[a] == s[a - 1]);
        } else {
            assert(t[a] == s[a - 1]);
            assert(t[b] == s[b - 1]);
        }
    }
}

/// Replacing a value keeps the keys unique.
pub proof fn lemma_update_value_unique<K, V>(s: Seq<(K, V)>, i: int, v: V)
    requires
        keys_unique(s),
        0 <= i < s.len(),
    ensures
        keys_unique(s.update(i, (s[i].0, v))),
{
    let t = s.update(i, (s[i].0, v));
    assert forall|a: int, b: int| 0 <= a < t.len() && 0 <= b < t.len() && a != b implies #[trigger] t[a].0 != #[trigger] t[b].0 by {
        assert(t[a].0 == s[a].0);
        assert(t[b].0 == s[b].0);
    }
}


/// Adding a new key keeps the keys unique and the length within the capacity.
pub proof fn lemma_with_new_unique<K, V>(s: Seq<(K, V)>, cap: nat, k: K, v: V)
    requires
        keys_unique(s),
        !contains_key(s, k),
        s.len() <= cap,
        cap > 0,
    ensures
        keys_unique(with_new(s, cap, k, v)),
        with_new(s, cap, k, v).len() <= cap,
        with_new(s, cap, k, v)[0] == (k, v),
{
    if is_full(s, cap) {
        let d = s.drop_last();
        lemma_prefix_unique(s, s.len() - 1);
        assert(d == s.subrange(0, s.len() - 1));
        assert(!contains_key(d, k)) by {
            if contains_key(d, k) {
                let i = choose|i: int| 0 <= i < d.len() && #[trigger] d[i].0 == k;
                assert(s[i].0 == k);
            }
        }
        lemma_push_front_unique(d, k, v);
    } else {
        lemma_push_front_unique(s, k, v);
    }
}

/// Replacing the value of a present key and moving it to the front keeps
/// the keys unique and the length.
pub proof fn lemma_put_present_unique<K, V>(s: Seq<(K, V)>, k: K, v: V)
    requires
        keys_unique(s),
        contains_key(s, k),
    ensures
        keys_unique(seq![(k, v)] + s.remove(index_of(s, k))),
        (seq![(k, v)] + s.remove(index_of(s, k))).len() == s.len(),
{
    let i = index_of(s, k);
    lemma_update_value_unique(s, i, v);
    let u = s.update(i, (s[i].0, v));
    lemma_to_front_unique(u, i);
    assert(to_front(u, i) =~= seq![(k, v)] + s.remove(i));
}


/// Sequences with the same keys in the same order agree on having distinct keys.
pub proof fn lemma_same_keys_unique<K, V>(a: Seq<(K, V)>, b: Seq<(K, V)>)
    requires
        keys_of(a) == keys_of(b),
        keys_unique(a),
    ensures
        keys_unique(b),
        a.len() == b.len(),
{
    assert(keys_of(a).len() == a.len());
    assert(keys_of(b).len() == b.len());
    assert forall|i: int, j: int| 0 <= i < b.len() && 0 <= j < b.len() && i != j implies #[trigger] b[i].0 != #[trigger] b[j].0 by {
        assert(keys_of(a)[i] == keys_of(b)[i]);
        assert(keys_of(a)[j] == keys_of(b)[j]);
        assert(keys_of(a)[i] == a[i].0 && keys_of(b)[i] == b[i].0);
        assert(keys_of(a)[j] == a[j].0 && keys_of(b)[j] == b[j].0);
        assert(a[i].0 != a[j].0);
    }
}

/// Replacing the value of an entry keeps the keys.
pub proof fn lemma_update_value_keys<K, V>(s: Seq<(K, V)>, i: int, v: V)
    requires
        0 <= i < s.len(),
    ensures
        keys_of(s.update(i, (s[i].0, v))) == keys_of(s),
{
    assert(keys_of(s.update(i, (s[i].0, v))) =~= keys_of(s));
}

} // verus!
