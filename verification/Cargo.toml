[package]
name = "block_storage"
version = "0.1.0"
edition = "2021"
publish = false

[dependencies]
xxhash-rust = { version = "0.8", features = ["xxh3"] }
io-uring = "0.7"
libc = "0.2"
libublk = "0.4"
