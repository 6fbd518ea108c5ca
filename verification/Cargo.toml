[package]
name = "wikiquotes_structured"
version = "0.1.0"
edition = "2021"
publish = false

[dependencies]
anyhow = "=1.0.104"
arrow = { version = "=60.1.0", default-features = false }
blake3 = { version = "=1.8.7", features = ["pure"] }
clap = { version = "=4.6.7", features = ["derive"] }
flate2 = "=1.1.10"
parquet = { version = "=60.1.0", default-features = false, features = ["arrow", "zstd"] }
quick-xml = { version = "=0.42.0", features = ["escape-html"] }
regex = "=1.13.1"
serde = { version = "=1.0.229", features = ["derive"] }
serde_arrow = { version = "=0.15.1", features = ["arrow-60"] }
serde_json = "=1.0.154"
tree-sitter = "=0.27.1"
tree-sitter-wikitext = "=0.1.3"
