[package]
name = "rbridge"
version = "0.1.0"
edition = "2021"
publish = false

[dependencies]
enigo = "0.1"
futures-util = "0.3"
local-ip-address = "0.5"
serde = { version = "1", features = ["derive"] }
serde_json = "1"
tokio = { version = "1", features = ["full"] }
tokio-tungstenite = "0.20"
tungstenite = "0.20"
url = "2"
