# moq_rs

A pub/sub relay for real-time data over QUIC, with its core verified in Verus.

- `src/protocol`: length-prefixed framing (`[4-byte big-endian length][payload]`)
  and the protocol messages (`[type][2-byte channel-name length][UTF-8 name][payload]`),
  each with exact encode/decode contracts and round-trip proofs.
- `src/relay`: channels (one publisher, a set of subscribers), connected
  clients, and the relay service that decides which outbound handles
  receive DATA. The relay keeps, as a proved invariant, that every
  channel member is a connected client.
- `src/tls`: choosing the TLS identity (stored or freshly self-signed) and
  building the QUIC server configuration from it.
- `src/session`, `src/media`: session and video-encoder domain types.
- `app/`: the QUIC relay, server and client, certificate files, async stream
  I/O and the GStreamer H.264 encoder, around the library.
