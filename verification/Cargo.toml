[package]
name = "kvgraph"
version = "0.1.0"
edition = "2021"
publish = false

[dependencies]
anyhow = "=1.0.104"
bytemuck = { version = "=1.25.2", features = ["must_cast"] }
diskann = "=0.51.0"
diskann-benchmark-runner = "=0.51.0"
diskann-quantization = "=0.51.0"
diskann-utils = "=0.51.0"
diskann-vector = "=0.51.0"
half = { version = "=2.7.1", features = ["bytemuck"] }
redb = "=2.6.4"
rocksdb = { version = "=0.22.0", default-features = false }
serde = { version = "=1.0.229", features = ["derive"] }
tempfile = "=3.27.0"
thiserror = "=2.0.21"
