[package]
name = "dispatch_core"
version = "0.1.0"
edition = "2021"
publish = false

[dependencies]
arc-swap = "*"
futures = "0.1"
