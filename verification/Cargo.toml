[package]
name = "skattr_core"
version = "0.1.0"
edition = "2021"
publish = false

[dependencies]
regex = "1"
sha2 = "0.10"
ed25519-dalek = "2"
zxcvbn = "3"
serde = { version = "1", features = ["derive"] }
ciborium = "0.2"
toml = "0.8"
tokio = { version = "1", features = ["io-util", "sync", "rt", "macros"] }
parking_lot = "0.12"
directories = "5"
libc = "0.2"
