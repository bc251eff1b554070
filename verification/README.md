# indexer_store

The store of a block indexer over a RocksDB database: the keys of blocks, ledgers, staking ledgers,
transactions and snapshots, the operations on them, and backups.

- `src/` is the library, verified with Verus. An operation of the store is a state machine: it names
  the next action on the database and is told what came of it. `src/model.rs` runs the operations
  against a model of the database and proves what holds of such runs; `src/disk.rs` does the same
  for backups and a model of the disk.
- `app/` opens the database, performs the actions and serialises the values.
- `tests/` runs the library, with a map in memory in place of the database.
