[package]
name = "martix"
version = "0.1.0"
edition = "2021"
publish = false

[dependencies]
anyhow = "=1.0.104"
oneshot = { version = "=0.2.1", features = ["std"] }
