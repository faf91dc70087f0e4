[package]
name = "amble"
version = "0.1.0"
edition = "2021"
publish = false

[dependencies]
aes = "0.8"
anyhow = "1"
btleplug = "0.11"
ccm = "0.5"
clap = { version = "4", features = ["derive"] }
futures = "0.3"
hex = "0.4"
rand = "0.8"
rumqttc = { version = "0.24", default-features = false }
rusqlite = { version = "0.31", features = ["bundled"] }
serde = { version = "1", features = ["derive"] }
serde_json = "1"
tiny_http = "0.12"
tokio = { version = "1", features = ["full"] }
tracing = "0.1"
tracing-subscriber = { version = "0.3", features = ["env-filter"] }
uuid = "1"
