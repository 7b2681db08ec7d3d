[package]
name = "sec_loader"
version = "0.1.0"
edition = "2021"
publish = false

[dependencies]
x86 = "*"
r-efi = "*"
