# codaze

A local gateway that serves Codex and OpenAI-style requests from a pool of upstream accounts.

- `src/` is the library: the pool of accounts, the choice of an account, failover, the meaning of
  upstream errors, the shape of requests and answers, and the handling of streamed responses and
  websockets. It is written in Verus. Every function in it carries a contract that is proved, but for
  a few small ones that call into `http`, `serde_json`, `sha2`, `chrono` and `std`: their contracts
  are taken for granted, and their doc comments say what is claimed of each call. The two functions
  that convert JSON values to and from `serde_json` carry no contract of their own; those that
  parse and render with them do.
- `src/accounts/laws.rs`, `src/accounts/sync_laws.rs`, `src/failover_laws.rs`,
  `src/request_laws.rs` and `src/responses/stream_laws.rs` state what holds of the library as a
  whole. Laws about one module stand in that module.
- `tests/` runs the library with the real crates.
- `app/` is the program: it listens, reads and writes account files, and talks to the upstream.

A delay that a message names in words ("try again in 1.5s") is a decimal number, which
`app/` reads with floating point and hands to the library as a length of time.
