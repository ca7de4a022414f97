[package]
name = "change_watcher"
version = "0.1.0"
edition = "2021"
publish = false

[dependencies]
chrono = "0.4"
notify = "6"
reqwest = { version = "0.12", default-features = false, features = ["json"] }
serde = { version = "1", features = ["derive"] }
serde_json = "1"
tokio = { version = "1", features = ["rt-multi-thread", "macros"] }
