[package]
name = "tachyonix"
version = "0.3.0"
edition = "2021"
publish = false

[dependencies]
async-event = "*"
cache-padded = "1"
diatomic-waker = "*"
futures-core = "0.3"
