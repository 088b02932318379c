[package]
name = "vault"
version = "0.1.0"
edition = "2021"
publish = false

[dependencies]
aes-gcm-siv = "0.11"
argon2 = "0.5"
base64 = "0.21"
crypto-common = "0.1"
sha2 = "0.10"
rand = "0.8"
im = "15"
zeroize = "1"
toml = "0.8"
serde = { version = "1", features = ["derive"] }
dirs = "5"
anyhow = "1"
thiserror = "1"
parking_lot = "0.12"
