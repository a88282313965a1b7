[package]
name = "shard"
version = "0.1.0"
edition = "2021"
publish = false

[dependencies]
url = "2"
sha2 = "0.10"
serde = { version = "1", features = ["derive"] }
serde_json = "1"
toml = "*"
tokio = { version = "1", features = ["full"] }
reqwest = { version = "0.12", default-features = false, features = ["rustls-tls", "stream"] }
futures-util = "0.3"
bytes = "1"
clap = { version = "4", features = ["derive"] }
crossterm = "*"
rusqlite = { version = "*", features = ["bundled"] }
anyhow = "1"
thiserror = "*"
async-trait = "0.1"
