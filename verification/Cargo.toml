[package]
name = "embedded_eventloop"
version = "0.1.0"
edition = "2021"
publish = false

[dependencies]
critical-section = { version = "*", features = ["std"] }
cortex-m = "*"
