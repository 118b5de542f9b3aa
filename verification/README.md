# rcodex

`rcodex` lets the stock Codex terminal UI drive a remote Codex host through
OpenAI's remote-control relay: it enrolls a controller with a device key,
pairs it with a host, keeps a relay session, and bridges the relay stream to a
local websocket that `codex --remote` connects to.

## Layout

- `src/` — the library, verified with Verus: the relay envelope format,
  segmentation and reassembly of messages, the per-stream state machine,
  signing payloads and challenge checks, session and token validation, the
  OAuth callback reader, the retry policy, version checks and host selection.
  Each public function states its result exactly in its contract; the laws
  that span several calls are public proof functions (`lemma_*`).
  `src/outside.rs` holds the calls into `base64`, `sha2`, `url`, `chrono`,
  `serde_json`, `subtle`, `rand`, `uuid` and `reqwest`, each with the contract
  that the crate's source supports.
- `app/` — the program around the library: the command line, files, the
  keychain, HTTP, the relay and shim websockets, and the async loops that run
  the library's state machine.
- `tests/` — tests of the library's behaviour on concrete values.
