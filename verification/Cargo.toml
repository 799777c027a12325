[package]
name = "minos"
version = "0.1.0"
edition = "2021"
publish = false

[dependencies]
arc-swap = "1"
async-trait = "0.1"
httparse = "1"
regex = "1"
rusqlite = { version = "*", features = ["bundled"] }
schemars = "1"
serde = { version = "1", features = ["derive"] }
serde_json = "1"
sha2 = "0.10"
socket2 = { version = "0.6", features = ["all"] }
thiserror = "2"
tokio = { version = "1", features = ["full"] }
tracing = "0.1"
uuid = { version = "1", features = ["v4", "serde"] }
which = "*"

[dev-dependencies]
tempfile = "3"
