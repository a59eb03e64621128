[package]
name = "sg"
version = "0.1.0"
edition = "2021"
publish = false

[dependencies]
nix = { version = "0.26", features = ["fs", "uio"] }
libc = "0.2"
mio = { version = "1", features = ["os-poll", "os-ext"] }
