[package]
name = "juc"
version = "0.1.0"
edition = "2021"
publish = false

[dependencies]
x64asm = "=0.1.9"
serde = { version = "=1.0.229", features = ["derive"] }
serde_json = "=1.0.154"
