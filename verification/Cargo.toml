[package]
name = "gpu_miner_watch"
version = "0.1.0"
edition = "2021"
publish = false

[dependencies]
tokio = { version = "1", default-features = false, features = ["sync", "time", "rt", "macros"] }
nvml-wrapper = "*"
reqwest = { version = "*", default-features = false }
