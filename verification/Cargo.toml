[package]
name = "trycmd"
version = "0.1.0"
edition = "2021"
publish = false

[dependencies]
shlex = "1"
os_pipe = "1"
serde = { version = "1", features = ["derive"] }
toml_edit = { version = "0.19", features = ["serde"] }
humantime-serde = "1"
