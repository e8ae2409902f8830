[package]
name = "wire_helpers"
version = "0.1.0"
edition = "2021"
publish = false

[dependencies]
chrono = "0.4"
lazy_static = "1"
log = "0.4"
uuid = "1"
