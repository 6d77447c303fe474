# sigint

RF and Wi-Fi heat-map collection and aggregation for a tactical operations
center, with its hub, its Meshtastic serial link and the desktop
application's commands.

- `src/` — the library, verified with Verus: sensor-output parsers
  (hackrf_sweep, CoreWLAN, dump1090), the Meshtastic frame reader, the hub's
  request routing, query strings and record checks, the decisions of merging
  a pushed batch, dimension keys, per-node rate limiting, the ring buffer, tile grouping, Ed25519 signing of batches
  (through `ed25519-dalek` and `base64`), CCTV page resolution (through
  `regex` and `url`), and the state of the desktop application's services.
- `tests/` — tests of the library.
- `app/` — what the library leaves to its caller: SQLite databases, the HTTP
  server and client, child processes, serial ports, serde wire types, and the
  floating-point aggregation of power readings, confidence and decay.
