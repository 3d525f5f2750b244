[package]
name = "npm_bumpall"
version = "0.1.0"
edition = "2021"
publish = false

[dependencies]
clap = { version = "4", features = ["derive"] }
glob = "0.3"
serde_json = "1"
