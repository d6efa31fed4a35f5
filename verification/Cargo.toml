[package]
name = "chorus"
version = "0.1.0"
edition = "2021"
publish = false

[dependencies]
indexmap = "=2.14.2"
varint-rs = "=2.2.1"
rand = "=0.9.5"
base64 = "=0.22.1"
nbtx = "*"
tracing = "=0.1.44"
serde = { version = "=1.0.229", features = ["derive"] }
serde_json = "=1.0.154"
