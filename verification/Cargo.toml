[package]
name = "reconnecting-jsonrpsee-ws-client"
version = "0.1.0"
edition = "2021"
publish = false

[dependencies]
futures = "0.3"
jsonrpsee = { version = "0.20", features = ["ws-client"] }
serde_json = { version = "1", features = ["raw_value"] }
subxt = { version = "0.33", default-features = false, features = ["native"] }
tokio = { version = "1", features = ["sync", "rt", "macros", "time"] }
tokio-retry = "0.3"
tokio-stream = "0.1"
tracing = "0.1"
