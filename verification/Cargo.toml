[package]
name = "iso4217"
version = "0.1.0"
edition = "2021"
publish = false

[dependencies]
quick-xml = "=0.37.5"
ureq = { version = "=2.12.1", default-features = false }
