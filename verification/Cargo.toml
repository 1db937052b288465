[package]
name = "fdo_engine"
version = "0.1.0"
edition = "2021"
publish = false

[dependencies]
openssl = "0.10"
hex = "0.4"
serde = { version = "1", features = ["derive"] }
anyhow = "1"
log = "0.4"
pretty_env_logger = "0.5"
tokio = { version = "1", features = ["rt-multi-thread", "macros", "time"] }
warp = "0.3"
config = "0.13"
