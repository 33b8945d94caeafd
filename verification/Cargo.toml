[package]
name = "uefi_demo"
version = "0.1.0"
edition = "2021"
publish = false

[dependencies]
embedded-graphics = "*"
libm = "*"
rusttype = "*"
uefi = { version = "*", features = ["alloc"] }
uefi-graphics2 = "*"
