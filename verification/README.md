# evmap

An eventually consistent map for one writer and many readers. It keeps two copies
of a map from keys to value-sets. Readers look at one copy, the writer changes the
other, and a refresh swaps them. Writes go to a log, so that each of them reaches
both copies.

- `src/` is the library, verified with Verus.
  - `contents` says what a copy holds and what each operation does to it.
  - `data` is the store behind a copy: keys found by hash or by index.
  - `state` is the model of a write handle, with its invariant.
  - `write` is the write handle, and `write::teardown` its end.
  - `read` is what readers are shown.
  - `slot` keeps a copy in place while its owner changes.
  - `epochs` decides when no reader can be left on a copy.
  - `laws` holds what is true of the map as a whole.
- `app/` gives threads their handles: it swaps the atomic pointer that readers
  follow, loads their epochs, and yields.
- `tests/` runs the library.
