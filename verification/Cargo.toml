[package]
name = "fapt"
version = "0.1.0"
edition = "2021"
publish = false

[dependencies]
deb-version = "*"
hex = "*"
md5 = "*"
sha2 = "*"
flate2 = "*"
anyhow = "*"
reqwest = "*"
tokio = { version = "*", features = ["rt-multi-thread", "macros"] }
chrono = "*"
filetime = "*"
tempfile-fast = "*"
tempdir = "*"
