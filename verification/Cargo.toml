[package]
name = "target-cloudberry"
version = "0.1.0"
edition = "2021"
publish = false

[dependencies]
bytes = "1"
futures = "0.3"
serde = { version = "1", features = ["derive"] }
serde_json = "1"
sha2 = "0.10"
thiserror = "2"
tokio-postgres = { version = "0.7", features = ["with-serde_json-1", "with-uuid-1"] }
uuid = { version = "1", features = ["v7"] }
