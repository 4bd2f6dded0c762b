[package]
name = "soketto"
version = "0.1.0"
edition = "2021"
publish = false

[dependencies]
bytes = "*"
sha1 = "*"
base64 = "*"
httparse = "*"
vatfluid = "*"
flate2 = "*"
