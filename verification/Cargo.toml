[package]
name = "cli_downloader"
version = "0.1.0"
edition = "2021"
publish = false

[dependencies]
tokio = { version = "1", features = ["sync", "rt-multi-thread", "macros"] }
tokio-util = "0.7"
reqwest = { version = "0.12", default-features = false }
uuid = { version = "1", features = ["v4"] }
serde = { version = "1", features = ["derive"] }
serde_json = "1"
chrono = "0.4"
dirs = "5"
thiserror = "2"
