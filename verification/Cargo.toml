[package]
name = "chat"
version = "0.1.0"
edition = "2021"
publish = false

[dependencies]
serde = { version = "1", features = ["derive"] }
serde_json = "1"
tokio = { version = "1", features = ["rt-multi-thread", "macros", "net", "sync", "time"] }
futures-util = { version = "0.3", features = ["sink"] }
axum = { version = "0.8", features = ["ws"] }
tokio-tungstenite = "0.24"
