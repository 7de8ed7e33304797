[package]
name = "thorn"
version = "0.1.0"
edition = "2021"
publish = false

[dependencies]
tree-sitter = "0.24"
tree-sitter-python = "0.23"
serde = { version = "1", features = ["derive"] }
serde_json = { version = "1", features = ["preserve_order"] }
toml = "0.8"
md5 = "0.7"
walkdir = "2"
rayon = "1"
clap = "4"
colored = "2"
