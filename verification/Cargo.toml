[package]
name = "dhash"
version = "0.1.0"
edition = "2021"
publish = false

[dependencies]
image = { version = "0.25", default-features = false, features = ["bmp", "gif", "jpeg", "png"] }
pretty_env_logger = "0.5"
structopt = "0.3"
