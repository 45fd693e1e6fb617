[package]
name = "qrkit"
version = "0.1.0"
edition = "2021"
publish = false

[dependencies]
ring = "*"
image = { version = "*", default-features = false, features = ["png", "webp"] }
reqwest = { version = "*", default-features = false, features = ["json"] }
serde = { version = "*", features = ["derive"] }
