[package]
name = "depscan"
version = "0.1.0"
edition = "2021"
publish = false

[dependencies]
serde_json = "1"
toml = "0.8"
clap = { version = "4", features = ["derive"] }
colored = "2"
walkdir = "2"
