[package]
name = "httpie"
version = "0.1.0"
edition = "2021"
publish = false

[dependencies]
jsonxf = "*"
reqwest = { version = "*", default-features = false }
tokio = { version = "*", default-features = false, features = ["rt-multi-thread", "macros"] }
