[package]
name = "ca"
version = "0.1.0"
edition = "2021"
publish = false

[dependencies]
bit-vec = "*"
docopt = "*"
rand = "*"
serde = { version = "*", features = ["derive"] }
