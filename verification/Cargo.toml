[package]
name = "steam_cdn"
version = "0.1.0"
edition = "2021"
publish = false

[dependencies]
aes = "=0.9.3"
cbc = { version = "=0.2.1", features = ["alloc"] }
base64 = "=0.23.1"
crc32fast = "=1.5.2"
zip = { version = "=8.6.0", default-features = false, features = ["deflate"] }
lzma-rs = "=0.3.0"
keyvalues-parser = "=0.2.4"
steam-vent = "=0.5.0"
steam-vent-proto-steam = "=0.5.2"
steam-vent-proto-common = "=0.5.1"
serde = { version = "=1.0.229", features = ["derive"] }
serde_json = "=1.0.151"
reqwest = { version = "=0.12.28", default-features = false, features = ["rustls-tls", "json"] }
tokio = { version = "=1.53.2", features = ["rt-multi-thread", "macros", "fs", "sync", "io-util"] }
