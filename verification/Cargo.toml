[package]
name = "replicator"
version = "0.1.0"
edition = "2021"
publish = false

[dependencies]
indicatif = "0.17"
ndarray = { version = "0.16", features = ["rayon", "serde"] }
num-traits = "0.2"
rand = "0.9"
serde = { version = "1", features = ["derive"] }
serde_json = "1"
