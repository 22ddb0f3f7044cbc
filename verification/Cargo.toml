[package]
name = "cdp_connection"
version = "0.1.0"
edition = "2021"
publish = false

[dependencies]
serde_json = { version = "1", features = ["raw_value"] }
serde = { version = "1", features = ["derive"] }
websocket = { version = "*", default-features = false, features = ["sync"] }
log = "0.4"
cdp = "*"
