[package]
name = "rsscli"
version = "0.1.0"
edition = "2021"
publish = false

[dependencies]
anyhow = "=1.0.104"
chrono = { version = "=0.4.45", features = ["serde"] }
clap = { version = "=4.6.7", features = ["derive"] }
dirs = "=7.0.0"
feed-rs = "=3.0.0"
opml = "=1.1.6"
reqwest = { version = "=0.12.28", default-features = false, features = ["rustls-tls"] }
rusqlite = { version = "=0.41.1", features = ["bundled", "chrono"] }
serde = { version = "=1.0.229", features = ["derive"] }
serde_json = { version = "=1.0.154", features = ["preserve_order"] }
tokio = { version = "=1.54.1", features = ["macros", "rt-multi-thread", "sync"] }
