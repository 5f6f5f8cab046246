# dsx

Synchronisation building blocks for kernel-style code: a bounded
single-producer/single-consumer queue, a reader-writer semaphore packed into
one word, a recursive boot-time lock, a set-once cell, and the grace-period
bookkeeping of an interrupt-based RCU.

## Layout

- `src/` is the verified library (Verus).
  - `collections/spsc_queue.rs`: the ring buffer with its FIFO contracts, and
    the two shared ends of a queue.
  - `sync.rs`, `sync/rw_state.rs`: the semaphore word, the decision of each
    operation on it, one compare-exchange attempt, and the protocol laws.
  - `sync/mutex/recursive.rs`, `sync/mutex/boot_mutex.rs`: the packed lock word
    of the recursive boot lock, its transitions and laws.
  - `sync/mutex/container.rs`: the data slot of a hooked lock.
  - `sync/sema.rs`: the set-once semaphore.
  - `kern.rs`: the grace-period tracker of the interrupt RCU.
  - `sys.rs`, `hints.rs`: host hooks and branch hints.
- `app/` is ordinary Rust around the library: the spin loops that repeat the
  verified attempts, guards over shared cells, the intrusive registry list,
  the mutex types and the global hook tables.
- `tests/` exercises the library.
