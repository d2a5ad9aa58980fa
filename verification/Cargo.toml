[package]
name = "sparam"
version = "0.1.0"
edition = "2021"
publish = false

[dependencies]
candle-core = "=0.11.1"
candle-nn = "=0.11.1"
clap = { version = "=4.6.7", features = ["derive"] }
csv = "=1.4.0"
optimizer = "=1.0.1"
rand = "=0.10.3"
rand_chacha = "=0.10.0"
rayon = "=1.12.0"
serde = { version = "=1.0.229", features = ["derive"] }
serde_json = { version = "=1.0.154", features = ["float_roundtrip"] }
thiserror = "=2.0.21"
toml = "=1.1.8"
