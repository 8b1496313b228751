[package]
name = "feature_watch"
version = "0.1.0"
edition = "2021"
publish = false

[dependencies]
anyhow = "1"
bytes = "1"
lettre = "0.10"
maud = "*"
protobuf = { version = "2", features = ["with-bytes"] }
reqwest = { version = "0.11", features = ["blocking"] }
similar = "2"
