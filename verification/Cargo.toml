[package]
name = "switchboard"
version = "0.1.0"
edition = "2021"
publish = false

[dependencies]
crc32fast = "1"
hmac = "0.12"
sha1 = "0.10"
tokio = { version = "1", features = ["net", "io-util", "rt-multi-thread", "macros", "sync", "signal"] }
