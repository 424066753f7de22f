# veil

The session and transport layer of an overlay network, verified with Verus.

- `src/` is the library. Every executable function carries a contract, and the
  properties that span several functions are stated and proved as public proof
  functions beside them. It does no I/O: where a socket, a clock or a peer decides,
  the library is a state machine that takes what happened and says what is to be
  done.
- `src/session/` holds frames and their sealing, rekeying, liveness, tickets, the
  queues of a node's sessions and the handoff of a session to another connection.
- `src/transport/` holds addresses, dialling, TLS and QUIC settings, browser-like
  TLS fingerprints, and listeners on random and moving ports.
- `src/transfer.rs` splits payloads into chunks and puts them together again.
- `tests/` runs the library on concrete values.
- `app/` is the running side: sockets, tasks, timers and settings around the library.

Calls into other crates (the AEAD, BLAKE3, base64, rustls, quinn, rcgen and the
random sources) stand behind small functions whose doc comments say what is taken on
trust.
