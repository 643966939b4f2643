[package]
name = "qomm-transport"
version = "0.1.0"
edition = "2021"
publish = false

[dependencies]
base64 = "0.22"
curve25519-dalek = "4"
ed25519-dalek = { version = "2", features = ["rand_core"] }
hex = "0.4"
libc = "0.2"
openssl = "0.10"
rand = "0.8"
rand_core = { version = "0.6", features = ["getrandom"] }
serde = { version = "1", features = ["derive"] }
serde_json = "1"
sha2 = "0.10"
