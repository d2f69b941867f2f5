[package]
name = "nicwatch"
version = "0.1.0"
edition = "2021"
publish = false

[dependencies]
anyhow = "1"
clap = { version = "4", features = ["derive"] }
crossterm = { version = "0.28", features = ["event-stream"] }
dashmap = "6"
etherparse = "0.15"
futures = "0.3"
humantime = "2"
libc = "0.2"
parking_lot = "0.12"
ratatui = "0.29"
serde = { version = "1", features = ["derive"] }
smallvec = "1"
thiserror = "1"
tokio = { version = "1", features = ["rt-multi-thread", "macros", "sync", "time"] }
tokio-util = "0.7"
tracing = "0.1"
tracing-subscriber = { version = "0.3", features = ["env-filter"] }
