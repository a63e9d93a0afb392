[package]
name = "zed_harnlang"
version = "0.1.0"
edition = "2021"
publish = false

[dependencies]
serde = { version = "1", features = ["derive"] }
serde_json = "1"
tokio = { version = "1", features = ["io-util", "io-std", "process", "rt-multi-thread", "macros", "sync", "time"] }
log = "0.4"
env_logger = "*"
zed_extension_api = "*"
harn-builtin-meta = "0.10.134"
