[package]
name = "portcache"
version = "0.1.0"
edition = "2021"
publish = false

[dependencies]
blake2 = "*"
serde_json = "*"
rusqlite = { version = "*", features = ["bundled"] }
tokio = { version = "*", features = ["full"] }
reqwest = { version = "*", default-features = false, features = ["stream"] }
git2 = { version = "*", default-features = false }
walkdir = "*"
clap = { version = "*", features = ["derive"] }
serde = { version = "*", features = ["derive"] }
toml = "*"
futures = "*"
bytes = "*"
