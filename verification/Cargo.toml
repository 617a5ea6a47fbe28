[package]
name = "icloud_album_rs"
version = "0.1.0"
edition = "2021"
publish = false

[dependencies]
rand = "0.8"
mime_guess = "2"
serde = { version = "1", features = ["derive"] }
serde_json = "1"
reqwest = { version = "0.12", default-features = false, features = ["json"] }
tokio = { version = "1", features = ["rt-multi-thread", "macros", "time", "fs", "io-util"] }
log = "0.4"
env_logger = "0.11"
