[package]
name = "updown_engine"
version = "0.1.0"
edition = "2021"
publish = false

[dependencies]
anyhow = "*"
chrono = "*"
clap = { version = "*", features = ["derive"] }
env_logger = "*"
log = "*"
rust_decimal = "*"
tokio = { version = "*", features = ["rt-multi-thread", "macros", "time", "sync"] }
