[package]
name = "rollup_core"
version = "0.1.0"
edition = "2021"
publish = false

[dependencies]
bech32 = "0.9"
ed25519-dalek = "1"
hex = "0.4"
serde = { version = "1", features = ["derive"] }
sha2 = "0.10"

[dev-dependencies]
rand = "0.7"
