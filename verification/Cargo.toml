[package]
name = "roughnote"
version = "0.1.0"
edition = "2021"
publish = false

[dependencies]
cairo-rs = { version = "0.20", features = ["png"] }
gtk4 = "0.9"
serde = { version = "1", features = ["derive"] }
serde_json = "1"
