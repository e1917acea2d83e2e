[package]
name = "stella"
version = "0.1.0"
edition = "2021"
publish = false

[dependencies]
alsa = "*"
blurz = "0.4"
chrono = "0.4"
execute = "0.2"
log = "0.4"
notify-rust = "4"
reqwest = { version = "0.12", default-features = false }
serde_json = "1"
tokio = { version = "1", features = ["macros", "rt-multi-thread"] }
