[package]
name = "w3name"
version = "0.1.0"
edition = "2021"
publish = false

[dependencies]
base64 = "0.13"
chrono = "0.4"
clap = { version = "3.2", features = ["derive"] }
env_logger = "0.9"
error-stack = "0.1"
libp2p-identity = { version = "0.2", features = ["ed25519", "secp256k1", "ecdsa", "rsa", "rand"] }
log = "0.4"
multibase = "0.9"
reqwest = { version = "0.11", default-features = false, features = ["json", "rustls-tls"] }
serde = { version = "1", features = ["derive"] }
serde_json = "1"
tokio = { version = "1", features = ["macros", "rt-multi-thread"] }

[dev-dependencies]
prost = "0.11"
serde_cbor = "0.11"
