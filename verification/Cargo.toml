[package]
name = "condemn"
version = "0.1.0"
edition = "2021"
publish = false

[dependencies]
chrono = { version = "0.4", features = ["serde"] }
clap = { version = "4", features = ["cargo", "env"] }
futures = "0.3"
log = "0.4"
parking_lot = "0.12"
pretty_env_logger = "0.5"
redis = { version = "*", features = ["tokio-comp"] }
sentry = { version = "*", default-features = false }
serde = { version = "1", features = ["derive"] }
serde-humantime = "0.1"
serde_derive = "1"
serde_json = "1"
shell-words = "1"
tokio = { version = "1", features = ["full"] }
warp = "0.3"
