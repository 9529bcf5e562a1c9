# dsh_tui

The verified core of a terminal client for the DeepSeek Harness: the
logic of its composer, slash menu, pickers, overlays, ACP prompt routing,
control lane, controller, and the decoding of the harness's notifications,
written in Verus with contracts that state what each function does.

Layout:

- `src/` — the library, every item verified by Verus. Modules follow the
  client's parts: `editor` (composer), `attachments` (image chips),
  `slash` (the `/` menu and running its commands), `app` (state model,
  pickers, overlays, app-state steps), `acp` (capabilities, image paths and
  prompt content, session surface, prompt queues and routing), `control`
  (extension calls and reply outcomes), `controller` (the controller's
  step function and its parsers), `events` (notification decoding),
  `acp_auth`, `elicitation`, `keymap`/`keys`, `locale`, `demo`, `term`,
  and small shared modules (`text`, `json`, `strmap`).
- `tests/` — tests that run the library with its outside crates linked.
- `app/` — ordinary Rust around the library: conversions to and from
  `serde_json` and `crossterm`, the serde forms of plugin overlay
  payloads, process and file I/O, the demo playback
  thread, the controller thread, and the few helpers that compute on
  floating point.
