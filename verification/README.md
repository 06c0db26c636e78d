# isekai_p2p

The decisions of a peer-to-peer client, written and proved in Verus: how it
signs in, obtains and renews its tokens and leases, serves and reaches its
peers, chooses between relayed and direct paths, and how its command-line
programs read their arguments and report.

- `src/` is the library. Nothing in it waits, sleeps or touches the network.
  Where a decision needs the outside world, one function says what to ask and
  another takes the answer. Functions named `law_...` are proofs of what holds
  across calls.
- `tests/` runs the library on concrete values, with the outside crates linked.
- `app/` is ordinary Rust around it: sockets, files, timers and tasks. The
  Identity API, the proxy's control plane and the QUIC connections are reached
  through the traits in `app/services.rs`.

What is taken on trust stands in `src/codec.rs` (base64, SHA-256, random bytes,
UTF-8 with replacement, quoted text, JSON, status reasons), `src/clock.rs` (RFC 3339),
`src/oidc.rs` (appending a query pair to a URL), `src/auth0.rs` (the wall
clock) and `src/text.rs` (growing strings).
