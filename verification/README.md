# skattr_core

The core of a private messenger daemon, written in Verus: its wire types,
configuration, contact cards, attachment manifests, log ring and redaction,
IPC framing and connection rules, and the decisions its command handlers and
inbound delivery make. Verus proves every function in `src/` against its contract; calls into outside crates (Ed25519, SHA-256, regex, zxcvbn, the
system clock, the platform data directory) sit behind small trusted wrappers
whose contracts name what those crates compute.

Layout:

- `src/` — the verified library.
- `tests/` — ordinary Rust tests run against the compiled library.
- `app/` — the I/O around the library: the TOML config file, async IPC
  frames, the shared log sink, the Unix socket listener and its peer check,
  the data-dir lock, the chunk store on disk and the manifest's CBOR form.
  The per-connection loop that drives the library's `Connection` state
  machine is not part of it.
