[package]
name = "assetcache"
version = "0.1.0"
edition = "2021"
publish = false

[dependencies]
hex = "0.4"
goblin = "0.7"
bincode = "2.0.0-rc.3"
serde = { version = "1", features = ["derive"] }
serde_json = "1"
toml = "0.5"
thiserror = "1"
anyhow = "1"
base64 = "0.21"
log = "0.4"
libc = "0.2"
region = "3"
rust-embed = "8"
unicorn-engine = "2"
