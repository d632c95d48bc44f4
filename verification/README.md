# dirtyqueue

A durable queue built out of a hashed filesystem. Every object that goes through the queue lies in
a file of its own, beneath directories that are named by the digits of its number. A head and a tail
that start over after the largest `usize` keep track of the queue, and a hint file lets it go on
where it left off.

- `src/` is the library, verified with Verus: the counters (`counter`), the paths (`decimal`,
  `path`), the queue (`queue`, `keyed`), the hints (`hint`, `cbor`), and what holds of all of them
  together (`laws`): first in, first out; no two objects share a file; no hint is written over an
  object; a queue that is closed and opened again is in the state it was in.
- `app/` is the queue on a real disk: files, file locks, the lock that threads share and the thread
  that writes the hints.
- `tests/` runs the library on files that are kept in memory.
