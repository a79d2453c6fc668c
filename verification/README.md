# meilibridge

A library for keeping a Meilisearch index in step with a PostgreSQL change
stream, with its rules stated as contracts and proved by Verus.

## Layout

- `src/` — the verified library.
  - `config/` — configuration types, defaults, loading decisions and the
    validator.
  - `pipeline/` — event filtering, mapping, transformation, soft deletes,
    batching, backpressure, memory accounting, the streaming JSON array
    scanner, and the decisions of the pipeline orchestrator.
  - `delivery/`, `dedup.rs` — two-phase transactions, transactional
    checkpoints and the sliding-window deduplicator.
  - `destination/` — the Meilisearch adapter's decisions, its batch
    processor and the circuit breaker around it.
  - `dlq/` — the dead-letter queue: in-memory store, statistics and Redis
    keys.
  - `checkpoint.rs`, `checkpoint/` — pending checkpoints, their flushing and
    the storage model.
  - `position.rs`, `lsn.rs`, `hex.rs` — replication positions and LSN text.
  - `text.rs`, `json.rs`, `keyed.rs`, `text_set.rs` — text, JSON values and
    the small keyed collections the rest is built on.
- `tests/` — tests of the library on concrete values.
- `app/` — the program around the library: start-up, files, environment,
  network clients, metrics and the asynchronous loops that carry out what
  the library decides.

Calls into outside crates (clocks, random numbers, UUIDs, the circuit
breaker crate, the Redis client) go through a few small trusted items whose
contracts are documented where they are declared.
