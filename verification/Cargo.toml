[package]
name = "fortro_engine"
version = "0.1.0"
edition = "2021"
publish = false

[dependencies]
crystals-dilithium = "*"
sha2 = "0.10"
hex = "0.4"
bs58 = "0.5"
base64 = "0.21"
bulletproofs = "4"
curve25519-dalek-ng = "4"
merlin = "3"
rand = "0.8"
aes-gcm = "0.10"
pbkdf2 = "0.12"
chrono = "0.4"
uuid = { version = "1", features = ["v4"] }
