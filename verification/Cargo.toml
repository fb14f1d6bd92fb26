[package]
name = "rubsty"
version = "0.1.0"
edition = "2021"
publish = false

[dependencies]
itertools = "*"
clap = { version = "*", features = ["derive"] }
comfy-table = "*"

[dev-dependencies]
regex = "1"
