# cubase-ecs-api

Control Cubase from a chat UI: JSON-RPC 2.0 requests arrive over HTTP
(`POST /rpc`), are checked and dispatched, and travel to a Cubase MIDI
Remote script as SysEx messages `F0 7D <7-bit ASCII JSON> F7`.

Layout:

- `src/` — the verified library (Verus).
  - `json.rs`: the JSON model that requests and replies are read and built in.
  - `json_text.rs`: the compact JSON text of a value (strings quoted by serde_json).
  - `text.rs`: integer rendering and parsing, appending, substring search.
  - `midi/sysex.rs`: SysEx framing and unframing, with the round-trip laws.
  - `midi/port.rs`: the MIDI port trait, the mock port, the host port's name.
  - `midi/responder.rs`: reply timeout, waiting keys, reply delivery, input-port choice.
  - `rpc/read.rs`: reading structs from JSON values, with serde's messages.
  - `rpc/types.rs`: JSON-RPC messages and the parameters of each method.
  - `rpc/handler.rs`: request handling and its laws.
  - `cubase/dispatcher.rs`: envelopes, mock results, host results.
  - `http.rs`: parse-error reply, health report, listening port.
- `app/` — the server: axum routes, environment, clock, channels, the
  host MIDI output and the MIDI input listener, converting between `serde_json::Value` and the
  library's JSON model at the edges.
- `tests/` — tests of the library.

Methods: `mixer.set`, `plugin.set_param`, `command.exec`, `session.status`.
Unknown methods get `-32601`, invalid parameters `-32602`, a wrong
`jsonrpc` version or a missing method `-32600`, a body that is not JSON `-32700`.
