[package]
name = "beaconship"
version = "0.1.0"
edition = "2021"
publish = false

[dependencies]
hostname = "0.3"
uuid = { version = "1", features = ["v4"] }
clap = { version = "3", features = ["derive", "env"] }
env_logger = "0.10"
futures = "0.3"
hyper = { version = "0.14", features = ["client", "http1", "http2", "tcp"] }
hyper-tls = "0.5"
log = "0.4"
rocket = { version = "0.5", features = ["json"] }
serde = { version = "1", features = ["derive"] }
serde_json = "1"
tokio = { version = "1", features = ["rt-multi-thread", "macros", "time"] }
