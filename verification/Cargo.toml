[package]
name = "payload_dumper"
version = "0.1.0"
edition = "2021"
publish = false

[dependencies]
hex = "0.4"
prost = "0.13"
reqwest = { version = "0.12", default-features = false, features = ["blocking", "rustls-tls"] }
serde = { version = "1", features = ["derive"] }
serde_json = "1"

[dev-dependencies]
binread = "2"
