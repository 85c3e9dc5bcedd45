[package]
name = "rpi4_kernel"
version = "0.1.0"
edition = "2021"
publish = false

[dependencies]
aarch64-cpu = "*"
heapless = "*"
device_query = "*"
