[package]
name = "pending_packets"
version = "0.1.0"
edition = "2021"
publish = false

[dependencies]
min-max-heap = "1.3"
bincode = "1.3"
thiserror = "1"
solana-sdk = "~1.11"
solana-perf = "~1.11"
solana-program-runtime = "~1.11"
rocksdb = { version = "0.18", default-features = false, features = ["lz4"] }
