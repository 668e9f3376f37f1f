[package]
name = "ruduo"
version = "0.1.0"
edition = "2021"
publish = false

[dependencies]
crossbeam-channel = "0.5"
libc = "0.2"
mio = { version = "0.8", features = ["os-poll", "net"] }
once_cell = "1"
slab = "0.4"
