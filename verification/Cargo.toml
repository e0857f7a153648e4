[package]
name = "wring"
version = "0.1.0"
edition = "2021"
publish = false

[dependencies]
crossbeam = "0.8"
io-uring = "*"
libc = "0.2"
parking_lot = "0.12"
