# braidpool_node

Storage-side logic of a braidpool node, verified with Verus.

- `src/bead.rs` — the bead model (block header, committed and uncommitted metadata) and its hash.
- `src/db/` — the rows of the bead store, the row written for a bead and its decoding back
  (with the round-trip law), the SQL batch that records a bead with its transactions,
  relatives and parent timestamps, and the decisions taken on each query's outcome.
- `src/braid_manager.rs` — the beads the braid manager stores and how it answers requests.
- `src/database.rs` — the miner store's state and the gathering of query rows.
- `src/text.rs` — models of hexadecimal, decimal and radix-16 text, with their lemmas.
- `src/foreign.rs` — the calls into `bitcoin`, `hex` and the standard library, with the
  contracts they are trusted to meet.
- `app/` — the SQLite services (`rusqlite`, `sqlx`) and the task loops (`tokio`) around the library.
