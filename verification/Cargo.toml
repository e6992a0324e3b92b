[package]
name = "rloc"
version = "0.1.0"
edition = "2021"
publish = false

[dependencies]
camino = "1"
globset = "0.4"
tree-sitter = "*"
tree-sitter-python = "*"
tree-sitter-javascript = "*"
tree-sitter-typescript = "*"
clap = { version = "4", features = ["derive"] }
serde = { version = "1", features = ["derive"] }
serde_json = "1"
toml = "*"
ignore = "0.4"
anyhow = "1"
thiserror = "2"
