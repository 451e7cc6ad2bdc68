[package]
name = "agent_core"
version = "0.1.0"
edition = "2021"
publish = false

[dependencies]
anyhow = "1"
async-channel = "2"
async-fs = "2"
async-tungstenite = "*"
chrono = "0.4"
dirs = "*"
futures = "0.3"
log = "0.4"
rust-embed = { version = "8", features = ["include-exclude"] }
serde = { version = "1", features = ["derive"] }
serde_json = { version = "1", features = ["preserve_order"] }
sha2 = "0.10"
smol = "2"
sqlx = { version = "0.8", default-features = false, features = ["postgres", "uuid", "runtime-async-std"] }
tempfile = "3"
url = "2"
uuid = { version = "1", features = ["v4"] }
zstd = "0.11"
