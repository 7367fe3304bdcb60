[package]
name = "koto_core"
version = "0.1.0"
edition = "2021"
publish = false

[dependencies]
pico-args = "0.3"
serde_json = "1"
smallvec = "1"
tempfile = "3"
