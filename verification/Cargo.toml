[package]
name = "luftraum"
version = "0.1.0"
edition = "2021"
publish = false

[dependencies]
chrono = "0.4"
tokio = { version = "1", features = ["rt-multi-thread", "net", "io-util", "time", "macros"] }
rumqttc = "*"
serde = { version = "1", features = ["derive"] }
toml = "*"
