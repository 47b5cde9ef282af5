[package]
name = "scylla_bridge"
version = "0.1.0"
edition = "2021"
publish = false

[dependencies]
scylla = { version = "0.12", features = ["ssl"] }
uuid = { version = "1", features = ["v4"] }
napi = { version = "2", default-features = false, features = ["napi6", "async"] }
napi-derive = "2"
openssl = "0.10"
serde = { version = "1", features = ["derive"] }
serde_json = "1"
