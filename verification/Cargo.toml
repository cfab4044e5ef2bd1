[package]
name = "pugbot"
version = "0.1.0"
edition = "2021"
publish = false

[dependencies]
serenity = { version = "0.11", default-features = false, features = ["model", "utils", "rustls_backend"] }
typemap = "0.3"
