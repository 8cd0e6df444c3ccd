[package]
name = "icn-covm"
version = "0.7.0"
edition = "2021"
publish = false

[dependencies]
chrono = "0.4"
rand = "0.8"
uuid = { version = "1", features = ["v4"] }
libp2p = { version = "0.53", default-features = false }
serde = { version = "1", features = ["derive"] }
serde_json = "1"
clap = { version = "4", features = ["derive"] }
thiserror = "1"
log = "0.4"
env_logger = "0.11"
tokio = { version = "1", features = ["rt-multi-thread", "macros", "time", "sync"] }
futures = "0.3"
rustyline = "14"
