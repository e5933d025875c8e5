# ichor standard library core

Verified core of the `ctx`, `os` and `regex` modules of the ichor
interpreter, written in Verus.

- `src/stdlib/ctx.rs`: cancellation contexts (deadlines, interrupt flag).
- `src/stdlib/os.rs`: dispatch of the `os` module and the values built from
  what the host reads (working directory, environment, arguments, stdin).
- `src/stdlib/regex.rs`: pattern matching on top of the `regex` crate, with
  match offsets turned into character indices.
- `src/text.rs`: UTF-8 byte offsets to character indices, slicing, line
  trimming, decimal rendering.
- `src/value.rs`, `src/types.rs`, `src/diag.rs`: values, types, diagnostics.
- `src/clock.rs`: the monotonic clock.
- `app/lib.rs`: the host side: the SIGINT handler and the actual reads.
