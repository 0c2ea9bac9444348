[package]
name = "identity"
version = "0.1.0"
edition = "2021"
publish = false

[dependencies]
iota-crypto = { version = "=0.23.2", default-features = false, features = ["std", "sha", "ed25519", "random"] }
serde_json = "=1.0.154"
serde_jcs = "=0.2.0"
serde = { version = "=1.0.229", features = ["derive"] }
erased-serde = "=0.4.10"
iota_stronghold = { version = "=0.4.1", default-features = false }
wasm-bindgen = { version = "=0.2.129", features = ["serde-serialize"] }
