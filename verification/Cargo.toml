[package]
name = "agy_acp"
version = "0.1.0"
edition = "2021"
publish = false

[dependencies]
fs2 = "0.4"
rusqlite = { version = "*", features = ["bundled"] }
serde = { version = "1", features = ["derive"] }
serde_json = "1"
shell-words = "1"
tokio = { version = "1", features = ["full"] }
uuid = { version = "1", features = ["v4"] }
