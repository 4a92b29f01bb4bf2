# vlru

A least-recently-used cache, verified with Verus.

- `src/model.rs` states what a cache is: the sequence of its entries, most
  recently used first, and its capacity. `src/laws.rs` proves properties
  that span operations (a read after a write, what a put leaves alone, ...).
- `src/dll.rs` is a doubly linked list kept in a vector, the store of both caches.
- `src/lib.rs` and the files next to it hold `LruCache`: constructors, `put`
  and `push`, the `get` family, `pop` family, `promote`/`demote`, the
  get-or-insert family, `resize`/`clear`, iterators and `clone`.
- `src/slru.rs` is a smaller cache with a `u32` capacity; `src/even_int.rs` an
  integer that stays even.
- `app/main.rs` is a small program over `EvenInt`.
