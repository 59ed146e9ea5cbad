[package]
name = "magika_ffi"
version = "0.1.0"
edition = "2021"
publish = false

[dependencies]
magika = "=1.1.0"
ort = { version = "=2.0.0-rc.12", default-features = false, features = ["load-dynamic", "api-18"] }
