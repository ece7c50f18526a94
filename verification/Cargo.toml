[package]
name = "p2p_handshake"
version = "0.1.0"
edition = "2021"
publish = false

[dependencies]
bitcoin_hashes = "0.14"
chrono = { version = "0.4", default-features = false, features = ["clock"] }
tokio = { version = "1", features = ["net", "io-util", "time", "rt"] }
