[package]
name = "onemore"
version = "0.1.0"
edition = "2021"
publish = false

[dependencies]
anyhow = "1"
ratatui = "0.29"
rusqlite = { version = "*", features = ["bundled"] }
serde = { version = "1", features = ["derive"] }
serde_json = "1"
serde_yaml = "0.9"
sha2 = "0.10"
toml = "0.8"
unicode-width = "0.2"
ureq = { version = "2", features = ["json"] }
uuid = { version = "1", features = ["v4"] }
