[package]
name = "simple_kv"
version = "0.1.0"
edition = "2021"
publish = false

[dependencies]
anyhow = "1"
bytes = "1"
dashmap = "5"
flate2 = "1"
futures = "0.3"
glob = "0.3"
http = "0.2"
lz4 = "1"
prost = "0.9"
serde = { version = "1", features = ["derive"] }
sled = "0.34"
thiserror = "1"
tokio = { version = "1", features = ["full"] }
tokio-rustls = "0.22"
tokio-stream = "0.1"
tokio-util = { version = "0.6", features = ["compat"] }
toml = "0.5"
tracing = "0.1"
tracing-subscriber = "0.3"
yamux = "0.9"
zstd = "0.13"
