[package]
name = "causal_doc"
version = "0.1.0"
edition = "2021"
publish = false

[dependencies]
crdts = "4"
bincode = "1"
serde = { version = "1", features = ["derive"] }
serde_json = "1"
bstr = "0.2"
bytes = "0.5"
futures = "0.3"
futures-timer = "3"
tokio = { version = "0.2", features = ["full"] }
tokio-util = { version = "0.3", features = ["codec"] }
warp = "0.2"
crossterm = { version = "0.17", features = ["event-stream"] }
wasm-bindgen = "0.2"
js-sys = "0.3"
web-sys = { version = "0.3", features = ["WebSocket", "MessageEvent", "ErrorEvent", "BinaryType", "Blob"] }
