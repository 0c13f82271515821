# waga_webrtc_core

The core of a WebRTC publisher and receiver, verified with Verus. It drives a
[str0m](https://crates.io/crates/str0m) session: it negotiates, adds and
withdraws network interfaces, sends and receives frames, and decides when a lost
connection is lost for good.

- `src/` is the library. `publisher.rs` is the publisher and `peer.rs` the same
  behind a C boundary; `model.rs` says what each operation does and `laws.rs`
  what follows for any number of them. Every call into str0m is in `session.rs`,
  as a function whose contract is taken on trust: the session's record grows by
  just that call, with what it was given and what it gave. str0m takes
  some things of a description for granted; `description.rs` checks them first.
- `tests/` runs the library over real str0m sessions, in simulated time.
- `app/` is the C interface: pointers, C strings, socket addresses, and the work
  on the transport that only a str0m with path extensions can do.

Times are nanoseconds since the session began. Addresses are texts as
`SocketAddr` prints them.
