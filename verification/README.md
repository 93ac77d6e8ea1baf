# cached

In-memory caches whose entries can expire, verified with Verus.

- `TtlCache`: entries live for a time; expired ones leave when a look-up finds them, when a write
  displaces them, or when they are swept.
- `TtlSortedCache`: the same, with the entries in the order in which they expire and an optional
  bound on their number. Over the bound, the entries that expire first leave first.
- `ShardedTtlCache` and `ShardedUnboundCache`: handles that threads share. Keys are spread over
  shards, each behind a lock of its own.

## Layout

- `src/time.rs`: spans, instants and the clock.
- `src/stores/ttl_view.rs`, `src/stores/sorted_view.rs`: what the states of the single-owner caches
  are and what each operation makes of them, with the laws that follow.
- `src/stores/ttl.rs`, `src/stores/ttl_sorted.rs`: the caches themselves.
- `src/stores/shared_reads.rs`: counted reads of a `TtlSortedCache` through a shared reference.
- `src/stores/expiry_index.rs`, `expiry_order.rs`, `lockstep.rs`: the expiry index, the order that
  it keeps, and how it stays in step with the table.
- `src/stores/sharded/`: the shared caches. `ttl_store.rs` and `unbound_store.rs` hold what happens
  to one shard while it is locked, exactly. The contracts of the caches around them say which of
  these functions was called on which shard, under its lock, what it returned, and what was counted
  and told to the callback. What a shard holds when its lock is taken is up to all threads, so it is
  not part of a state.
- `app/`: futures, descriptions for debugging, and conversions of durations.

What the operations do is stated as of an instant. A method whose name ends in `_at` takes it; the
one without reads the clock of the cache, and its contract says that the instant is one that this
clock shows. What the clock shows, and that it moves on, is not stated.
