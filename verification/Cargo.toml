[package]
name = "proper_market"
version = "0.1.0"
edition = "2021"
publish = false

[dependencies]
rust_decimal = "=1.43.0"
chrono = "=0.4.45"
serde = { version = "=1.0.229", features = ["derive"] }
serde_json = "=1.0.154"
simd-json = "=0.14.3"
log = "=0.4.35"
lazy_static = "=1.5.1"
crossbeam-channel = "=0.5.17"
futures = "=0.3.34"
futures-util = "=0.3.34"
tokio = { version = "=1.54.1", features = ["rt-multi-thread", "sync", "macros"] }
tokio-tungstenite = { version = "=0.17.2", features = ["native-tls"] }
zmq = "=0.9.2"
