[package]
name = "imsz"
version = "0.4.1"
edition = "2021"
publish = false

[dependencies]
libc = "0.2"
