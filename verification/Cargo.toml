[package]
name = "driver_env"
version = "0.1.0"
edition = "2021"
publish = false

[dependencies]
libc = "=0.2.190"
memmap = "=0.7.0"
x86_64 = "=0.14.13"
