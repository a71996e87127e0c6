[package]
name = "ogma_store"
version = "0.1.0"
edition = "2021"
publish = false

[dependencies]
serde = "*"
rmp-serde = "*"
zstd = "*"
blake3 = "*"
thiserror = "*"
