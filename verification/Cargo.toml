[package]
name = "avr_history"
version = "0.1.0"
edition = "2021"
publish = false

[dependencies]
displaydoc = "0.2.7"
grpcio = "0.13.0"
retry = "2.2.0"
serde = { version = "1.0.229", features = ["derive"] }
serde_json = "1.0.154"
toml = "0.9.8"

[dev-dependencies]
serde_with = { version = "3.24.0", default-features = false, features = ["std", "hex"] }
