# swmr_cell

A single-writer, multi-reader cell with version-based reclamation, verified
with Verus.

- `src/cell.rs`: `SwmrCell` (store, update, collect, get, previous) and its
  builder, with the model the contracts speak of (current version, value,
  retired values) and the laws about reclamation.
- `src/reader.rs`: reader slots, `LocalReader` (pin) and `PinGuard`.
- `src/garbage.rs`: the queue of retired values ordered by version.
- `src/version.rs`: the minimum active version a collection computes from the
  reader slots, and the limit below which it reclaims.
- `src/sync.rs`: the locks, cells and atomics the crate uses, declared to
  Verus; nothing is stated of what they hold, since other threads change it.
