[package]
name = "sourcetrait"
version = "0.1.0"
edition = "2021"
publish = false

[dependencies]
hex = "*"
splitty = "*"
hashlink = "*"
ron = "*"
serde = { version = "*", features = ["derive"] }
serde-value = "*"
tokio = { version = "*", features = ["sync", "rt", "macros"] }
tokio-util = "*"
xxhash-rust = { version = "*", features = ["xxh3", "const_xxh3"] }
chrono = "*"
libc = "*"
