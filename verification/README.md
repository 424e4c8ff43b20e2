# azuracast-engine

The streaming engine of a radio station: it fetches and decodes tracks, fades
them into each other, lets live DJs in, and sends the stream to Icecast servers
and to HLS segments on disk.

- `src/` is the library: parsers, queues, state machines, and the arithmetic of
  frames and times. Each function states what it does in `requires` and
  `ensures`, proved by Verus. Proof functions named `law_...` state what holds
  of several functions together.
- `app/` is the program around it: command line, configuration file, HTTP,
  sockets, subprocesses, decoders, and everything that computes with
  floating-point numbers.
- `tests/` runs the library.

Samples, seconds and decibels are type parameters in the library. What is
computed with them is handed in by the caller, and contracts speak of it by
what the caller's function promises.

What is believed without proof is in `src/codec.rs` (base64, JSON booleans and
strings, and UTF-8, from the `base64` and `serde_json` crates and std) and at
the top of `src/text.rs` (`String::push`).
