[package]
name = "code_graph"
version = "0.1.0"
edition = "2021"
publish = false

[dependencies]
anyhow = "1"
blake3 = "1"
rusqlite = "0.31"
serde_json = "1"
tempfile = "3"
zstd = "0.13"
