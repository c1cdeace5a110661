[package]
name = "aquarium"
version = "0.1.0"
edition = "2021"
publish = false

[dependencies]
anyhow = "*"
futures-util = "*"
pcap = "*"
tokio = { version = "*", features = ["macros", "net", "rt-multi-thread", "signal", "sync"] }
tokio-tungstenite = "*"

[dev-dependencies]
serde_json = "*"
