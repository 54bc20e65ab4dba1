[package]
name = "gdl90"
version = "0.1.0"
edition = "2021"
publish = false

[dependencies]
anyhow = "*"
dotenvy = "*"
log = "*"
pretty_env_logger = "*"
tokio = { version = "*", features = ["macros", "net", "rt-multi-thread", "time"] }
