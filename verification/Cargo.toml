[package]
name = "texture_ripper"
version = "0.1.0"
edition = "2021"
publish = false

[dependencies]
rfd = { version = "0.14", default-features = false, features = ["xdg-portal", "tokio"] }
