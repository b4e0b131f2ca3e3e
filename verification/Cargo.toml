[package]
name = "genesis_wallet"
version = "0.1.0"
edition = "2021"
publish = false

[dependencies]
sha2 = "0.10"
ed25519-dalek = { version = "2", features = ["rand_core"] }
rand_core = { version = "0.6", features = ["getrandom"] }
chacha20poly1305 = "0.10"
serde = { version = "1", features = ["derive"] }
toml = "0.8"
rpassword = "7"
