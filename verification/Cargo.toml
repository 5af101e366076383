[package]
name = "pulsar"
version = "0.1.0"
edition = "2021"
publish = false

[dependencies]
bit-vec = "0.6"
chrono = "0.4"
flate2 = "1"
futures = "0.3"
log = "0.4"
lz4 = "1"
rand = "0.7"
regex = "1"
snap = "1"
zstd = "0.13"
