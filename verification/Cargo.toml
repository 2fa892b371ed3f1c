[package]
name = "procedural_payloads"
version = "0.1.0"
edition = "2021"
publish = false

[dependencies]
crc32fast = "1"
embedded-io = "0.6"
zerocopy = { version = "0.8", features = ["derive"] }
thiserror = "2"
