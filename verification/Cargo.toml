[package]
name = "rat_engine"
version = "0.1.0"
edition = "2021"
publish = false

[dependencies]
regex = "=1.13.1"
rustls = { version = "=0.23.46", default-features = false, features = ["ring", "std", "tls12", "logging"] }
rustls-pemfile = "=2.2.0"
dashmap = "=6.2.1"
tokio = { version = "=1.54.1", features = ["sync", "rt", "macros", "time"] }
serde_json = "=1.0.154"
crossbeam-queue = "0.3"
