[package]
name = "libpep"
version = "0.1.0"
edition = "2021"
publish = false

[dependencies]
curve25519-dalek = { version = "4", features = ["digest", "rand_core"] }
sha2 = "*"
rand_core = { version = "*", features = ["getrandom"] }
base64 = "*"
