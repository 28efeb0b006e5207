[package]
name = "webrtc_signaling"
version = "0.1.0"
edition = "2021"
publish = false

[dependencies]
dashmap = "6"
uuid = { version = "1", features = ["v4"] }
serde = { version = "1", features = ["derive"] }
serde_json = "1"
tokio = { version = "1", features = ["full"] }
tokio-stream = "0.1"
futures = "0.3"
warp = "0.3"
wasm-bindgen = "0.2"
wasm-bindgen-futures = "0.4"
js-sys = "0.3"
console_error_panic_hook = "0.1"
web-sys = { version = "0.3", features = ["console", "ErrorEvent", "MessageEvent", "RtcConfiguration", "RtcDataChannel", "RtcDataChannelEvent", "RtcDataChannelState", "RtcIceCandidate", "RtcIceCandidateInit", "RtcIceConnectionState", "RtcIceServer", "RtcPeerConnection", "RtcPeerConnectionIceEvent", "RtcPeerConnectionState", "RtcSdpType", "RtcSessionDescription", "RtcSessionDescriptionInit"] }
