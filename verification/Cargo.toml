[package]
name = "vmbus_guest"
version = "0.1.0"
edition = "2021"
publish = false

[dependencies]
log = "0.4"
spin = "0.10"
thiserror = "2"
zerocopy = { version = "0.8", features = ["derive"] }
