[package]
name = "wadup_core"
version = "0.1.0"
edition = "2021"
publish = false

[dependencies]
anyhow = "=1.0.104"
bytes = "=1.12.1"
clap = { version = "=4.6.7", features = ["derive"] }
crossbeam-deque = "=0.8.8"
memmap2 = "=0.9.12"
parking_lot = "=0.12.5"
rand = "=0.10.3"
rusqlite = "=0.41.0"
serde = { version = "=1.0.229", features = ["derive"] }
serde_json = "=1.0.154"
tracing = "=0.1.44"
tracing-subscriber = "=0.3.23"
uuid = { version = "=1.29.0", features = ["v4"] }
wasmtime = "=46.0.3"
