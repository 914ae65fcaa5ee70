[package]
name = "pypes"
version = "0.1.0"
edition = "2021"
publish = false

[dependencies]
chrono = "0.4"
cron = "*"
serde = { version = "1", features = ["derive"] }
serde_json = "1"
reqwest = { version = "0.12", default-features = false, features = ["json"] }
tokio = { version = "1", features = ["rt-multi-thread", "macros", "sync", "time"] }
axum = "*"
pickledb = "*"
