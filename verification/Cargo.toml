[package]
name = "pgmux"
version = "0.1.0"
edition = "2021"
publish = false

[dependencies]
anyhow = "1"
bytes = "1"
postgres-protocol = "0.6"
prometheus = "0.13"
rustls = "0.23"
rustls-pemfile = "2"
tokio = { version = "1", features = ["io-util", "net"] }
tokio-rustls = "0.26"
tracing = "0.1"
