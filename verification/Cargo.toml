[package]
name = "ergot"
version = "0.1.0"
edition = "2021"
publish = false

[dependencies]
cobs = { version = "*", features = ["alloc"] }
const-fnv1a-hash = "*"
postcard = { version = "1", features = ["use-std"] }
serde = { version = "1", features = ["derive"] }
rand = "0.9"
