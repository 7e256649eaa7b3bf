[package]
name = "matrix_indexer"
version = "0.1.0"
edition = "2021"
publish = false

[dependencies]
uuid = { version = "1", features = ["v4"] }
indradb-lib = { version = "4", default-features = false }
indradb-proto = "4"
serde = { version = "1", features = ["derive"] }
serde_json = "1"
tokio = { version = "1", features = ["rt-multi-thread", "macros", "time"] }
async-channel = "1"
futures = "0.3"
color-eyre = "0.6"
tracing = "0.1"
tracing-subscriber = "0.3"
matrix-sdk = { version = "0.6", default-features = false, features = ["sled", "rustls-tls"] }
kdl = "4"
miette = { version = "5", features = ["fancy"] }
thiserror = "1"
dirs = "4"
