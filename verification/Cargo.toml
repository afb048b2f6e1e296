[package]
name = "auth_core"
version = "0.1.0"
edition = "2021"
publish = false

[dependencies]
anyhow = "=1.0.104"
chrono = "=0.4.45"
humanize-rs = "=0.1.5"
rmpv = "=1.3.1"
yaml-rust = "=0.4.5"
