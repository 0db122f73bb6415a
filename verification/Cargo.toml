[package]
name = "tidyup"
version = "0.1.0"
edition = "2021"
publish = false

[dependencies]
anyhow = "1"
argh = "0.1"
async-trait = "0.1"
tokio = { version = "1", features = ["macros", "rt-multi-thread", "process", "fs", "io-util", "sync"] }
tokio-stream = { version = "0.1", features = ["fs", "io-util"] }
