# gpui_utils

The rules behind a GUI framework's utilities, written in Rust and verified with
Verus: what is logged about an error and under which target, what comes of a poll
that is logged, unwrapped or limited in time, when a deferred function runs, what
sanitizing does to a path, and what an HTTP client makes of headers and bodies.

- `src/` is the verified library. Calls into other crates and into the standard
  library's paths and clocks go through small functions marked
  `#[verifier::external_body]`; the comment above each says what is believed of it.
- `app/` connects the library to the logger, executors, destructors, the environment
  and the network.
- `tests/` runs the library.
