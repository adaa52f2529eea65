[package]
name = "slot_ledger"
version = "0.1.0"
edition = "2021"
publish = false

[dependencies]
rand = "=0.8.8"
zip = "=0.6.6"
serenity = { version = "=0.10.10", features = ["unstable_discord_api"] }
tokio = { version = "1", features = ["macros", "rt-multi-thread"] }
sled = "=0.34.7"
rust-s3 = { version = "=0.38.0", default-features = false, features = ["sync"] }
anyhow = "1"
lazy_static = "1"
tracing = "0.1"
tracing-subscriber = "0.3"
walkdir = "2"
