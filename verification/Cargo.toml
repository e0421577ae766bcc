[package]
name = "chip8"
version = "0.1.0"
edition = "2021"
publish = false

[dependencies]
tinyvec = { version = "1", features = ["alloc"] }
tokio = { version = "1", features = ["rt", "rt-multi-thread", "time", "macros"] }
