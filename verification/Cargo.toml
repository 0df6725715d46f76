[package]
name = "yandex_tracker_api_rust"
version = "0.1.0"
edition = "2021"
publish = false

[dependencies]
clap = { version = "=4.6.7", features = ["derive"] }
env_logger = "=0.11.11"
log = "=0.4.34"
open = "=5.4.4"
reqwest = { version = "=0.13.5", default-features = false, features = ["form"] }
serde = { version = "=1.0.229", features = ["derive"] }
tokio = { version = "=1.53.2", features = ["rt-multi-thread", "macros", "time", "sync"] }
toml = "=1.1.7"
warp = { version = "=0.4.3", features = ["server"] }
