[package]
name = "rusting"
version = "0.1.0"
edition = "2021"
publish = false

[dependencies]
async-channel = "2"
num_cpus = "1"
reqwest = "0.12"
tokio = { version = "1", features = ["fs", "rt", "time"] }
