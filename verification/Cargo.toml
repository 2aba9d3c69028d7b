[package]
name = "rustpress"
version = "0.1.0"
edition = "2021"
publish = false

[dependencies]
regex = "=1.13.1"
serde = { version = "=1.0.229", features = ["derive"] }
serde_json = "=1.0.154"
serde_norway = "=0.9.42"
toml = "=1.1.8"
clap = { version = "=4.6.7", features = ["derive"] }
anyhow = "=1.0.104"
thiserror = "=2.0.21"
comrak = { version = "=0.59.0", default-features = false, features = ["shortcodes"] }
hypertext = { version = "=0.12.1", features = ["alpine"] }
include_dir = "=0.7.4"
scraper = "=0.29.0"
tokio = { version = "=1.54.1", features = ["rt-multi-thread", "macros", "sync", "time"] }
axum = "=0.8.9"
notify = "=8.2.1"
async-stream = "=0.3.6"
futures-core = "=0.3.34"
tree-sitter = "=0.27.1"
tree-sitter-highlight = "=0.27.1"
tree-sitter-bash = "=0.25.1"
tree-sitter-javascript = "=0.25.0"
tree-sitter-typescript = "=0.23.2"
tree-sitter-json = "=0.24.8"
tree-sitter-yaml = "=0.7.2"
tree-sitter-toml-ng = "=0.7.0"
tree-sitter-html = "=0.23.2"
tree-sitter-css = "=0.25.0"
tree-sitter-rust = "=0.24.2"
tree-sitter-md = "=0.5.4"
tree-sitter-python = "=0.25.0"
