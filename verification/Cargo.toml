[package]
name = "smart_meter_emulator"
version = "0.1.0"
edition = "2021"
publish = false

[dependencies]
anyhow = "1"
reqwest = { version = "*", default-features = false, features = ["json"] }
rumqttc = { version = "*", default-features = false }
serde = "1"
serde_derive = "1"
tokio = { version = "1", features = ["full"] }
tokio-modbus = { version = "*", default-features = false, features = ["tcp", "tcp-server"] }
tracing-subscriber = "*"
