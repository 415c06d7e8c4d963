[package]
name = "work_review"
version = "0.1.0"
edition = "2021"
publish = false

[dependencies]
serde = { version = "1", features = ["derive"] }
serde_json = "1"
subtle = "2"
uuid = { version = "1", features = ["v4"] }
chrono = "0.4"
log = "0.4"
dirs = "*"
tokio = { version = "1", features = ["sync", "rt", "macros", "time"] }
reqwest = { version = "0.12", default-features = false, features = ["json", "rustls-tls"] }
