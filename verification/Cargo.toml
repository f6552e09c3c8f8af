[package]
name = "gamepad_relay"
version = "0.1.0"
edition = "2021"
publish = false

[dependencies]
serde_json = "1"
tokio = { version = "1", features = ["rt-multi-thread", "net", "sync", "macros", "time"] }
futures-util = "0.3"
tokio-tungstenite = "*"
vigem-client = "*"
