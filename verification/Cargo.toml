[package]
name = "ws_relay"
version = "0.1.0"
edition = "2021"
publish = false

[dependencies]
argparse = "0.2"
env_logger = "0.10"
futures = "0.3"
log = "0.4"
serde = { version = "1", features = ["derive"] }
serde_json = "1"
tokio = { version = "1", features = ["macros", "rt-multi-thread", "sync"] }
tokio-stream = "0.1"
uuid = { version = "1", features = ["v4"] }
warp = { version = "0.3", default-features = false, features = ["websocket"] }
