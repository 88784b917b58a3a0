[package]
name = "mgnp"
version = "0.1.0"
edition = "2021"
publish = false

[dependencies]
cobs = { version = "=0.3.0", default-features = false }
futures = "=0.3.34"
heapless = { version = "=0.7.17", features = ["serde"] }
maitake-sync = "=0.1.2"
portable-atomic = "=1.15.0"
postcard = { version = "=1.1.3", features = ["alloc"] }
serde = { version = "=1.0.229", features = ["derive"] }
tracing = "=0.1.44"
uuid = { version = "=1.29.0", features = ["serde"] }
