[package]
name = "wascc_codec"
version = "0.1.0"
edition = "2021"
publish = false

[dependencies]
serde = { version = "1", features = ["derive"] }
serde_derive = "1"
serde_json = "1"
serde_bytes = "*"
rmp-serde = "*"

[dev-dependencies]
rmp = "*"
