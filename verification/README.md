# iroh-experiment

A kit for measuring NAT traversal and direct media paths over iroh. The
library under `src/` is verified with Verus; `app/` is the command line around
it, which does the network and file I/O.

| Module | What it holds |
|---|---|
| `stun`, `stun_laws` | STUN codec and what it promises as a whole |
| `probe` | external-address probe: retries, authentication, server sweep |
| `observer` | HTTP/3 observation and its comparison with STUN |
| `baseline` | echo transfer, path telemetry, shared run id |
| `gate` | fail-closed media gate and path monitor |
| `candidate` | direct candidates: lifetimes, epochs, choosing whom to dial |
| `stream`, `session` | synthetic stream, handshakes, session outcome |
| `tunnel`, `services`, `gateway`, `client`, `keyfile` | TCP tunnel |
| `result`, `rfc3339`, `time` | result records and clocks |
| `addr`, `text`, `wire`, `rng` | shared building blocks |

Functions named `law_*` state properties that span several functions.

Media frames are written only while the media gate is in `DirectReady`; it
latches once a relay path shows up, the direct path is lost, or the connection
closes. The tunnel gateway dials nothing but the services it was
configured with.
