[package]
name = "inference_engine"
version = "0.1.0"
edition = "2021"
publish = false

[dependencies]
anyhow = "1"
axum = "0.7"
base64 = "0.22"
candle-core = "=0.9.2"
candle-nn = "=0.9.2"
candle-transformers = "=0.9.2"
clap = { version = "4", features = ["derive"] }
either = { version = "1", features = ["serde"] }
hf-hub = { version = "0.4.3", default-features = false, features = ["ureq"] }
serde = { version = "1", features = ["derive"] }
serde_json = "1"
tokenizers = { version = "0.21.4", default-features = false, features = ["unstable_wasm"] }
tokio = { version = "1", features = ["rt-multi-thread", "net", "sync", "macros"] }
tower-http = { version = "0.6", features = ["cors"] }
tracing-chrome = "0.7"
tracing-subscriber = "0.3"
utoipa = "4"
uuid = { version = "1", features = ["v4"] }
