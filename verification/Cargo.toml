[package]
name = "simpleserve"
version = "0.1.0"
edition = "2021"
publish = false

[dependencies]
regex = "1"
urlencoding = "2"
tokio = { version = "1", features = ["net", "io-util", "rt", "rt-multi-thread", "sync", "macros"] }
openssl = "0.10"
tokio-openssl = "0.6"
async-trait = "0.1"
