//! A WebRTC signalling server and the peer bookkeeping of its browser client.
pub mod connection;
pub mod handler;
pub mod manager;
pub mod model;
pub mod peer_map;
