[package]
name = "axioplan"
version = "0.1.0"
edition = "2021"
publish = false

[dependencies]
hex = "0.4"
log = "0.4"
serialport = { version = "4", default-features = false }
thiserror = "1"
