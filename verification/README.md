# lightstage

A light stage server's core, verified with Verus: the KiNET v1 packet
codec, DMX fixtures and universes, frame rendering, the one-light-at-a-time
and playback animators, the stage's mode state machine, and power supply
discovery, addressing, DMX broadcasting, heartbeat recognition, refresh
pacing and the heartbeat watchdog, and the naming, choice and zstd
(de)compression of stored playback sequences.

Layout:

- `src/` — the verified library. Each public function states its result in
  `ensures` over spec functions and views; the `law_*` proof functions state
  what holds across calls (codec round trips, OLAT and playback run to
  completion, a manual trigger fires once, ...).
- `tests/` — tests of the library on concrete values.
- `app/` — the `lsserver` binary around the library: command line, logging,
  self-update, the REST and WebSocket APIs (serde, axum, CBOR), reading and
  writing sequence files (ULIDs, CBOR), UDP sockets and threads, and the parts that
  compute in floating point (the demo pattern, capture rate validation,
  refresh timing).
