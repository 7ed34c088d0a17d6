[package]
name = "paddler"
version = "0.1.0"
edition = "2021"
publish = false

[dependencies]
url = "*"
serde = { version = "*", features = ["derive"] }
serde_json = "*"
tokio = { version = "*", features = ["sync", "rt", "rt-multi-thread", "time", "macros", "net"] }
tokio-stream = "*"
tokio-tungstenite = "*"
futures-util = "*"
reqwest = { version = "*", default-features = false, features = ["json", "stream"] }
dashmap = "*"
nanoid = "*"
anyhow = "*"
thiserror = "*"
log = "*"
async-trait = "*"
