[package]
name = "pubsub_hub"
version = "0.1.0"
edition = "2021"
publish = false

[dependencies]
tokio = { version = "1", features = ["macros", "rt-multi-thread", "sync"] }
warp = { version = "0.3", default-features = false, features = ["websocket"] }
futures-util = { version = "0.3", default-features = false, features = ["std", "sink"] }
serde = { version = "1", features = ["derive"] }
