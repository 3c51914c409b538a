[package]
name = "rektorrent"
version = "0.1.0"
edition = "2021"
publish = false

[dependencies]
async-trait = "0.1"
bendy = { version = "0.3", features = ["serde"] }
bytes = { version = "1", features = ["serde"] }
clap = { version = "4.4", features = ["derive"] }
crossterm = { version = "0.27", features = ["event-stream"] }
futures = "0.3"
prost = "0.12"
rand = "0.8"
ratatui = "0.26"
reqwest = { version = "0.11", default-features = false }
serde = { version = "1", features = ["derive"] }
sha1 = "0.10"
thiserror = "1"
tokio = { version = "1.35", features = ["full"] }
tokio-stream = { version = "0.1", features = ["net", "sync"] }
tokio-util = { version = "0.7", features = ["codec"] }
tonic = "0.10"
tracing = "0.1"
tracing-subscriber = "0.3"
url = "2"
