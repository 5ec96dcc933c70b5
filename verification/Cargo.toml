[package]
name = "fbdraw"
version = "0.1.0"
edition = "2021"
publish = false

[dependencies]
memmap2 = "0.9"
itertools = "0.13"
image = { version = "0.25", default-features = false, features = ["png"] }
rusttype = "0.9"
