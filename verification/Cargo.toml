[package]
name = "blockstore"
version = "0.1.0"
edition = "2021"
publish = false

[dependencies]
xxhash-rust = { version = "=0.8.19", features = ["xxh64"] }
zstd = "=0.14.3"
lru-mem = "=0.3.0"
rlp = "=0.6.1"
bincode = "=2.0.1"
fxhash = "=0.2.1"
pretty-hex = "=0.4.2"
clap = { version = "=4.6.7", features = ["derive"] }
strum = { version = "=0.28.0", features = ["derive"] }
leveldb = "=0.8.6"
db-key = "=0.0.5"
