[package]
name = "songcache"
version = "0.1.0"
edition = "2021"
publish = false

[dependencies]
byteorder = "1"
md5 = "0.7"
midly = { version = "0.5", default-features = false, features = ["alloc", "std"] }
serde = { version = "1", features = ["derive"] }
serde_json = "1"
walkdir = "2"
