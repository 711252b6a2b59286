[package]
name = "virtio_fuzz"
version = "0.1.0"
edition = "2021"
publish = false

[dependencies]
anyhow = "1"
arbitrary = { version = "1", features = ["derive"] }
async-trait = "0.1"
libfuzzer-sys = { version = "0.4", default-features = false }
parking_lot = "0.12"
zerocopy = "0.8"
