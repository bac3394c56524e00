[package]
name = "syftbox_crypto_protocol"
version = "0.1.0"
edition = "2021"
publish = false

[dependencies]
ed25519-dalek = "2"
x25519-dalek = { version = "2", features = ["static_secrets"] }
sha2 = "0.10"
hkdf = "0.12"
hex = "0.4"
base64 = "0.22"
bip39 = "2"
rand = "0.9"
serde = { version = "1", features = ["derive"] }
serde_json = "1"
clap = { version = "4", features = ["derive"] }
anyhow = "1"
zeroize = "1"
flate2 = "1"
tar = "0.4"

[dev-dependencies]
rand_chacha = "0.9"
