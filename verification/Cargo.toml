[package]
name = "flowbit_lib"
version = "0.1.0"
edition = "2021"
publish = false

[dependencies]
dirs = "6"
encoding_rs = "0.8"
libc = "0.2"
once_cell = "1"
parking_lot = "0.12"
regex = "1"
reqwest = { version = "0.12", default-features = false, features = ["json", "rustls-tls"] }
serde = { version = "1", features = ["derive"] }
serde_json = "1"
tokio = { version = "1", features = ["fs", "io-util", "macros", "process", "rt-multi-thread", "sync", "time"] }
zip = { version = "2", default-features = false, features = ["deflate"] }
