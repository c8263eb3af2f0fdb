[package]
name = "odilia"
version = "0.1.0"
edition = "2021"
publish = false

[dependencies]
atspi = { version = "=0.30.0", features = ["tokio"] }
env_logger = "=0.11.11"
futures = "=0.3.34"
log = "=0.4.34"
tokio = { version = "=1.54.1", features = ["macros", "rt-multi-thread", "sync"] }
