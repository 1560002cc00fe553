[package]
name = "battletanks"
version = "0.1.0"
edition = "2021"
publish = false

[dependencies]
hecs = "0.10"
uuid = { version = "1", features = ["v4"] }
rapier3d = "0.22"
tokio = { version = "1", features = ["full"] }
tokio-tungstenite = "0.21"
futures-util = "0.3"
prost = "0.12"
anyhow = "1"
tracing = "0.1"
tracing-subscriber = { version = "0.3", features = ["env-filter"] }
dashmap = "5"
