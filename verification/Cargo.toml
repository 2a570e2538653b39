[package]
name = "forgex_node"
version = "0.1.0"
edition = "2021"
publish = false

[dependencies]
sha2 = "0.10"
bech32 = "0.9"
k256 = { version = "0.13", features = ["ecdsa"] }
tokio = { version = "1", features = ["full"] }
anyhow = "1"
serde = { version = "1", features = ["derive"] }
serde_json = "1"
