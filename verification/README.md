# RustRaft

RustRaft is a Raft contract and readiness library: request and response
types, an in-process Raft group, per-peer replication pipelines, a segmented
write-ahead log, snapshot chunking and lifecycle, state-machine adapters,
read-safety decisions and fail-closed readiness reports. Its public API is
OpenRaft-free and released under Apache-2.0.

The library under `src/` is written in Verus; every function of the
library carries a contract that the verifier proves. The traits that users
implement for state machines and transports state their methods over spec
functions that allow any outcome unless an implementation narrows them, so
the library's contracts say what it hands to them and what it does with
their answers; the storage trait, which the library does not call, states
nothing. The laws of the library (quorum
commits, one leader per election, safe reads, pipelines within their limits,
records surviving recovery, snapshots that reassemble, fail-closed readiness
gates that also demand real ByteRaft benchmark evidence) are proof functions.

- `src/cluster.rs`: the Raft group (`RaftCluster`): elections, proposals,
  append handling, reads, leadership transfer, membership changes, snapshot
  installation.
- `src/pipeline.rs`: the replication pipeline of one peer.
- `src/wal.rs`, `src/snapshot.rs`: WAL records, checksums, segments and
  recovery; snapshot chunks, installs and the transfer lifecycle.
- `src/readiness.rs`, `src/production.rs`, `src/transitions.rs`,
  `src/safety.rs`, `src/health.rs`: `rustraft_parity_report`,
  `rustraft_production_readiness_report` and the decisions they rest on.
- `src/fsm.rs`, `src/transport.rs`: state-machine and transport traits, the
  idempotent apply adapter and the authenticated transport.
- `app/`: the file-backed WAL and snapshot store, the threaded node runtime,
  JSON encodings and the floating-point benchmark report.
