[package]
name = "pravaha"
version = "0.1.0"
edition = "2021"
publish = false

[dependencies]
ahash = "0.8"
curl = "0.4"
libc = "0.2"
reqwest = { version = "0.12", default-features = false, features = ["blocking"] }
thiserror = "2"
