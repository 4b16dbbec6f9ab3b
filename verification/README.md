# penguinwave

Headset control for the Penguin Wave audio daemon, as a Verus-verified
library: the rules are proved, the edges stay thin.

## Layout

- `src/proto.rs` — the plain data every layer shares: device ids, error
  kinds, requests and answers (with the equalizer's numbers as a type
  parameter, so the library never computes with floats).
- `src/hid/` — the HID side: the error taxonomy, the per-model protocol of
  the SteelSeries Arctis Nova 7, an in-memory transport, the device registry
  (presence, selection, what changed) and user-described devices.
- `src/control/` — the daemon's rules: ChatMix policy, EQ node names, band
  editing, presets, wiring plans for the filter chain (including which
  device each chain is wired to when it starts, and a model of the graph
  that proves what applying a plan leaves linked), desired routing,
  crash-loop detection, the EQ's lifecycle (start, respawn, safe mode,
  saving, shutdown), the configuration layout, the error taxonomy and the
  request plan (what the core does for each request).
- `src/daemon/` — the socket side: framing with a size cap, the per-session
  rate limit, what a session does with each line, the socket path, the
  service-manager messages and PipeWire liveness supervision.
- `src/cli/` — the command-line client: its commands, the requests they
  send, and how answers are laid out for a person.
- `app/` — plain Rust pieces around the library: argument parsing, files,
  sockets, frame reading, the event bus, `hidapi`, the clock and the
  floating-point EQ math. It holds no daemon or client binary: the session
  loop, the supervision thread and the core that performs each request plan
  run against the PipeWire backend, whose crate is not part of this tree, so
  `line_step`, `plan`, `Supervisor`, `CrashTracker`, the rate limiter and the
  wiring plans have no caller here. The client's connect-and-call loop is
  absent for the same reason: the wire frames' serde model lives with those
  crates; `reply_step` and `check_hello` hold its decisions.
- `tests/` — the library's tests, run against the compiled crate.
