[package]
name = "hmip_comm"
version = "0.1.0"
edition = "2021"
publish = false

[dependencies]
crc32fast = "1"
base64 = "0.22"
tokio = { version = "1", features = ["rt-multi-thread", "net", "time", "sync", "io-util", "macros"] }
