[package]
name = "yank_path"
version = "0.1.0"
edition = "2021"
publish = false

[dependencies]
arboard = { version = "=3.7.0", default-features = false }
clap = { version = "=4.6.7", features = ["derive"] }
glob = "=0.3.4"

[dev-dependencies]
tempfile = "3"
