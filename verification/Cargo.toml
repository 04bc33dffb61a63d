[package]
name = "connect"
version = "0.1.0"
edition = "2021"
publish = false

[dependencies]
crossbeam-channel = "0.5"
serde = { version = "1", features = ["derive"] }
serde_json = "1"
tinyfiledialogs = "3"
toml = "0.8"
zmq = "0.10"
