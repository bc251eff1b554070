[package]
name = "indexer_store"
version = "0.1.0"
edition = "2021"
publish = false

[dependencies]
anyhow = "1"
bcs = "0.1"
data-encoding = "2"
rocksdb = { version = "0.21", default-features = false }
serde = { version = "1", features = ["derive"] }
tar = "0.4"
tracing = "0.1"
zstd = "0.12"
