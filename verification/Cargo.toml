[package]
name = "snatch"
version = "0.3.0"
edition = "2021"
publish = false

[dependencies]
scraper = "=0.29.0"
ego-tree = "=0.11.1"
regex = "=1.13.1"
url = "=2.5.8"
zhconv = "=0.4.2"
num_cpus = "=1.17.0"
serde = { version = "=1.0.229", features = ["derive"] }
toml = "=1.1.8"
tokio = { version = "=1.54.1", features = ["rt-multi-thread", "sync", "time", "fs", "macros"] }
tokio-util = "=0.7.20"
rusqlite = { version = "=0.41.1", features = ["bundled"] }
chrono = "=0.4.45"
dirs = "=7.0.0"
ratatui = "=0.30.2"
arboard = { version = "=3.7.0", default-features = false }
