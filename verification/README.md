# hivemind

A small container orchestration platform: cluster membership (SWIM-style
probing, gossip, leader election, quorum), container and volume bookkeeping,
deployment planning (rolling, blue-green, canary, A/B, rollback), health
tracking with alerts and restarts, and IP address management for an overlay
network.

Layout:

- `src/` is the verified library. Each module states its operations over
  mathematical models (`Seq`, `Map`, views of the records) and proves them with
  Verus; the `*_laws.rs` modules state and prove properties that span several
  operations (what a call undoes, what every operation keeps).
- `app/` is the `hivemind` command: argument handling, the UDP and HTTP loops,
  timers, files and the serialisation of messages. It performs the I/O and
  hands plain values to the library, which decides.
- `tests/` runs the library on concrete values.
