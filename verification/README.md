# event-sourcing

Building blocks for event-sourced systems, with contracts that Verus checks.

- `aggregate`, `event`, `codec`: aggregates, commands and events, and how events are stored as bytes.
- `store`, `inmemory`: the event store interface, transactions, and the store that keeps its events in memory.
- `repository`, `snapshot`, `snapshot_repository`: loading aggregates and running commands on them,
  with or without snapshots, with or without version checking.
- `projection`: read models that are built from the events of many aggregates.
- `test`: given-when-then tests of aggregates.
- `derive`: what the `Aggregate` derive macro decides.
- `laws`: what holds across calls, for example that what was written is read back, that a failed
  command changes nothing, and that loading from a snapshot is the same as replaying all events.

`app/` holds what stands around the library: the derive macro's parser and generator, and error
types that implement `std::error::Error`.
