# webrtc_signaling

A WebRTC signalling server and the peer bookkeeping of its browser client,
verified with Verus.

- `src/` — the verified library:
  - `model.rs`: the protocol's messages (`SignalMessage`, `PeerInfo`) and their views;
  - `handler.rs`: the server's logic — the table of connected peers, rooms,
    relaying, announcements, and the per-connection state machine
    `handle_connection`, with the laws it keeps;
  - `peer_map.rs`: the concurrent map of peers (`dashmap::DashMap`) and the
    contracts of the calls made into it;
  - `connection.rs`: what a browser-side peer connection keeps (data channel,
    callbacks) and the checks made before sending;
  - `manager.rs`: the browser-side table of peer connections.
- `app/` — the program around it: the warp/tokio WebSocket server
  (`main.rs`, `handler.rs`, `model.rs` with the serde encoding) and the
  WebAssembly client exported to JavaScript (`client.rs`).
- `tests/` — tests of the library.
