[package]
name = "desktop_gpui"
version = "0.1.0"
edition = "2021"
publish = false

[dependencies]
hex = "0.4"
ring = "0.17"
serde = { version = "1", features = ["derive"] }
serde_json = "1"
toml = "0.5"
anyhow = "1"
tracing = "0.1"
parking_lot = "0.12"
url = "2"
tokio = { version = "1", features = ["rt-multi-thread", "net", "io-util", "time", "macros"] }
