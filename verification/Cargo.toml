[package]
name = "jubako"
version = "0.1.0"
edition = "2021"
publish = false

[dependencies]
blake3 = { version = "1", features = ["pure"] }
uuid = { version = "1", features = ["v4"] }
zerocopy = "0.7"
zstd = "0.13"
lz4 = "1"
xz2 = "0.1"
