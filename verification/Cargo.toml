[package]
name = "cmtk"
version = "0.1.0"
edition = "2021"
publish = false

[dependencies]
clap = { version = "4", features = ["derive"] }
serde = { version = "1", features = ["derive"] }
toml = "0.8"
similar = "2"
rowan = "0.15"
logos = "*"
