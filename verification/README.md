# epoxy

A verified implementation of the logic of the Wisp protocol (a multiplexing
protocol that carries TCP and UDP streams over one WebSocket) and of the
server and client that speak it, written in Verus.

## Layout

- `src/packet.rs`, `src/wire.rs`: the packet formats and their encoding, with
  round-trip laws.
- `src/extensions/`: the protocol extensions (UDP, MOTD, password and
  certificate authentication) and their handshakes.
- `src/mux/`: the handshake on both sides and the multiplexor's stream state
  and flow control.
- `src/locked_sink.rs`, `src/unfair_select.rs`, `src/ws.rs`: the state
  machines behind the shared writer and the stream selection.
- `src/server/`: the server's stream policy, IP address ranges and literals,
  HTTP routing,
  stream handling decisions, wispnet and key loading.
- `src/client/`: the client's WebSocket upgrade checks, redirects, frame
  handling and connection providers.
- `app/main.rs`: a Wisp server over length-delimited TCP frames that drives
  the library; it moves bytes, looks host names up and runs the tasks. The
  protocol's decisions are the library's; `app/` only checks the library's
  preconditions before its calls.
- `tests/`: tests of the library on concrete values.

Outside crates (regex, base64, ring, sha2, ed25519-dalek, getrandom, http,
slab) are called behind trusted wrappers whose contracts are stated next to
them.
