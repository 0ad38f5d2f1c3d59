[package]
name = "handmade_async"
version = "0.1.0"
edition = "2021"
publish = false

[dependencies]
nix = { version = "0.30", features = ["event", "fs", "net", "poll", "process", "socket"] }
