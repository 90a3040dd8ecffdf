[package]
name = "musicthing"
version = "0.1.0"
edition = "2021"
publish = false

[dependencies]
base64 = "0.22"
lofty = "*"
serde = { version = "1", features = ["derive"] }
serde_json = "1"
sqlx = { version = "0.8", default-features = false, features = ["sqlite", "runtime-tokio"] }
tokio = { version = "1", features = ["sync", "rt", "macros"] }
walkdir = "2"
