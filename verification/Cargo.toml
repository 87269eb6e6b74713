[package]
name = "queue_bench"
version = "0.1.0"
edition = "2021"
publish = false

[dependencies]
crossbeam-queue = "=0.3.14"
libc = "=0.2.191"
ubq = "=5.0.2"
rbbq = "=0.1.0"
