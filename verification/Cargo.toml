[package]
name = "resonatify"
version = "0.1.0"
edition = "2021"
publish = false

[dependencies]
chrono = "0.4"
rodio = "0.21"

[dev-dependencies]
serde_json = "1"
