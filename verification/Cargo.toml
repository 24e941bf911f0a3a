[package]
name = "cube_protocol"
version = "0.1.0"
edition = "2021"
publish = false

[dependencies]
anyhow = "1"
bytes = "1"
flate2 = "1"
flume = "0.10"
log = "0.4"
named-binary-tag = "*"
tokio = { version = "1", features = ["net", "io-util", "time", "rt", "rt-multi-thread", "macros"] }
