[package]
name = "vimdoc"
version = "0.1.0"
edition = "2021"
publish = false

[dependencies]
clap = { version = "*", features = ["derive"] }
tree-sitter = "*"
tree-sitter-vimdoc = "*"
