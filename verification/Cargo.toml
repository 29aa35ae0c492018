[package]
name = "philharmonic-connector-impl-dns"
version = "0.1.0"
edition = "2021"
publish = false

[dependencies]
philharmonic-connector-impl-api = "=0.1.3"
serde = { version = "1", features = ["derive"] }
serde_json = "1"
tokio = { version = "1", features = ["time"] }
