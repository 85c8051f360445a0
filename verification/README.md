# sgl-omni-router

The routing core of an omni-modal inference router, verified with Verus. The
router accepts chat, speech, transcription and session requests, admits them
within configured limits, and hands each to a worker that serves it.

- `src/` is the library. It performs no input or output. From the head of a
  request and from what its body was found to need, it decides what becomes of
  it; what a body needs is found outside.
  - `worker_pool/` holds worker profiles and their validation, matching of
    requests to profile rows, admission, selection, load, sessions and health.
  - `http_media/` reads the headers of media requests and takes them from the
    first look to their worker.
  - `operations/` renders models, metrics and diagnostics.
  - `lifecycle.rs` and `server.rs` hold the process states, the shutdown
    supervisor and the route table.
- `app/` is ordinary Rust: sockets, timers, signals, configuration files and
  health probes. It shares the pool between tasks behind a lock, and gives
  leases back when they are dropped. Chat, sessions, request relaying and body
  classification come from the program that embeds it, through the `Edge` trait.
- `tests/` runs the library.

Proof functions whose names begin with `law_` state what holds across
operations: for example that a dispatched request goes to a healthy worker that
serves it, that dispatching without reading a request agrees with dispatching
it after reading it, and that what is held always adds up to what was given out.

Verification trusts the contracts of `tokio::sync::Semaphore`,
`reqwest::Url::parse`, `serde_json::to_string` on strings and
`std::str::from_utf8`. Each stands at the function that makes the call.
