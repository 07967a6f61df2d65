# codex_state

Runtime state of a coding agent, as a library verified with Verus: thread goals and their
accounting, the two phases of memory generation, logs with bounded partitions, backfill leases,
remote control enrollments, recorded imports, thread metadata, listings, sections and the graph of
spawned threads.

- `src/` holds the verified library. Each store keeps its rows in keyed tables
  (`src/table.rs`); each operation has a contract over a mathematical view of those tables. The
  files named `laws.rs`, or ending in `_laws.rs`, state what holds across operations. The clock,
  fresh identifiers and the other calls into crates are gathered in `src/outside.rs`,
  `src/memory_store/generation.rs`, `src/log_store/feedback.rs` and
  `src/external_agent_config_imports/fingerprint.rs`.
- `app/` connects the library to SQLite and PostgreSQL. It reads rows, hands them to the library
  in one transaction, and writes back what the library left.
- `tests/` runs the library on concrete values.
