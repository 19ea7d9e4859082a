[package]
name = "forest_db"
version = "0.1.0"
edition = "2021"
publish = false

[dependencies]
ahash = "=0.8.12"
anyhow = "=1.0.104"
async-fs = "=1.6.0"
async-trait = "=0.1.92"
blake2b_simd = "=1.0.5"
byteorder = "=1.5.0"
cid = "=0.11.3"
futures = "=0.3.34"
fvm_ipld_blockstore = "=0.3.2"
multihash-codetable = { version = "=0.2.2", features = ["blake2b", "sha2"] }
once_cell = "=1.21.4"
parity-db = "=0.4.13"
reqwest = { version = "=0.11.27", default-features = false, features = ["stream"] }
rs-car-ipfs = "=0.4.0"
serde = "=1.0.229"
serde_bytes = "=0.11.19"
tap = "=1.0.1"
tempfile = "=3.27.0"
tokio = { version = "=1.54.1", features = ["fs", "io-util"] }
tokio-util = { version = "=0.7.20", features = ["compat", "io"] }
tracing = "=0.1.44"
url = "=2.5.8"

[dev-dependencies]
fvm_ipld_encoding = "0.5"
