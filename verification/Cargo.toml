[package]
name = "pied_piper"
version = "0.1.0"
edition = "2021"
publish = false

[dependencies]
aes-gcm = "0.10"
anyhow = "1"
base64 = "0.22"
bincode = "1"
blake3 = "1"
clap = { version = "4", features = ["derive"] }
dirs = "5"
hex = "0.4"
lru = "0.12"
multibase = "0.9"
rand = "0.9"
semver = "1"
serde = { version = "1", features = ["derive"] }
serde_json = "1"
serde_yaml = "0.9"
sha2 = "0.10"
tar = "0.4"
toml = "0.8"
urlencoding = "2"
zstd = "0.13"
