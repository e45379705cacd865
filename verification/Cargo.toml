[package]
name = "layer_socket"
version = "0.1.0"
edition = "2021"
publish = false

[dependencies]
dashmap = "5.5"
hashbrown = "0.14"
libc = "0.2"
socket2 = { version = "0.5", features = ["all"] }
tracing = "0.1"
trust-dns-resolver = "0.23"
