[package]
name = "warp_core"
version = "0.1.0"
edition = "2021"
publish = false

[dependencies]
blake3 = "1"
bytes = "1"
thiserror = "2"
serde = { version = "1", features = ["derive"] }
