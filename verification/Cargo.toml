[package]
name = "mamba"
version = "0.1.0"
edition = "2021"
publish = false

[dependencies]
async-trait = "*"
prost = "*"
tokio = { version = "1", features = ["rt-multi-thread", "macros", "net", "process", "time", "sync", "io-util", "fs"] }
tokio-stream = "0.1"
toml = "*"
tonic = "*"
tonic-prost = "*"
