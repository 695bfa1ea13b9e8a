[package]
name = "flashquiz"
version = "0.1.0"
edition = "2021"
publish = false

[dependencies]
csv = "1"
rand = "0.8"
serde = { version = "1", features = ["derive"] }
structopt = "0.3"
trivial_colours = "*"
