[package]
name = "rawfs"
version = "0.1.0"
edition = "2021"
publish = false

[dependencies]
libc = "*"
sc = "*"

[dev-dependencies]
nix = { version = "*", features = ["dir", "fs", "user"] }
