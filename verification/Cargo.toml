[package]
name = "nimiq_jsonrpc"
version = "0.1.0"
edition = "2021"
publish = false

[dependencies]
async-stream = "0.3"
async-trait = "0.1"
axum = { version = "0.8", default-features = false, features = ["http1", "query", "tokio", "ws"] }
axum-extra = { version = "0.10", default-features = false, features = ["typed-header"] }
base64 = "0.22"
blake2 = "0.10"
darling = "0.20"
futures = "0.3"
headers = "0.3"
heck = "0.5"
http = "1"
js-sys = "0.3"
log = "0.4"
proc-macro2 = "1"
quote = "1"
reqwest = { version = "0.12", default-features = false, features = ["json"] }
serde = { version = "1", features = ["derive"] }
serde_json = { version = "1", features = ["preserve_order"] }
subtle = "2"
syn = { version = "2", features = ["full"] }
thiserror = "2"
tokio = { version = "1", features = ["macros", "net", "rt-multi-thread", "sync", "time"] }
tokio-tungstenite = "0.26"
tower-http = { version = "0.6", features = ["cors"] }
url = "2"
warp = { version = "0.3", default-features = false }
wasm-bindgen = "0.2"
wasm-bindgen-futures = "0.4"
web-sys = { version = "0.3", features = ["BinaryType", "ErrorEvent", "MessageEvent", "WebSocket"] }
