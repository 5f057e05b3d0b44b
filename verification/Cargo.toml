[package]
name = "openfang_core"
version = "0.1.0"
edition = "2021"
publish = false

[dependencies]
toml = "*"
sha2 = "*"
ed25519-dalek = "*"
regex = "*"
serde = { version = "*", features = ["derive"] }
serde_json = "*"
chrono = { version = "*", features = ["serde"] }
