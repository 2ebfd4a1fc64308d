[package]
name = "sourcepawn_lsp"
version = "0.1.0"
edition = "2021"
publish = false

[dependencies]
anyhow = "=1.0.104"
crossbeam-channel = "=0.5.17"
fxhash = "=0.2.1"
lazy_static = "=1.5.1"
lsp-server = "=0.10.0"
lsp-types = "0.94"
regex = "=1.13.1"
serde = { version = "=1.0.229", features = ["derive"] }
serde_json = "=1.0.154"
sourcepawn_lexer = "0.2"
threadpool = "=1.8.1"
tree-sitter = "=0.27.1"
walkdir = "=2.5.0"
