[package]
name = "codec_bench"
version = "0.1.0"
edition = "2021"
publish = false

[dependencies]
bincode = "=0.9.2"
serde = { version = "1", features = ["derive"] }
serde-bench = "*"
serde_json = "1"
latin = "=0.1.7"
