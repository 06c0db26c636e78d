[package]
name = "isekai_p2p"
version = "0.1.0"
edition = "2021"
publish = false

[dependencies]
anyhow = "=1.0.104"
argh = "=0.1.19"
base64 = "=0.22.1"
msquic-async = "*"
rand = "=0.8.8"
reqwest = { version = "=0.12.28", default-features = false, features = ["json"] }
serde = { version = "=1.0.229", features = ["derive"] }
serde_json = "=1.0.154"
sha2 = "=0.10.9"
thiserror = "=1.0.69"
time = { version = "=0.3.55", features = ["formatting", "parsing", "macros"] }
tokio = { version = "=1.54.1", features = ["full"] }
tokio-util = "=0.7.20"
tracing = "=0.1.44"
tracing-subscriber = { version = "=0.3.23", features = ["env-filter"] }
uniffi = "*"
