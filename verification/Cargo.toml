[package]
name = "danmaku"
version = "0.1.0"
edition = "2021"
publish = false

[dependencies]
url = "*"
tempfile = "*"
libmpv = "*"
libmpv-sys = "*"

[dev-dependencies]
abv = "*"
