[package]
name = "hocon-rs"
version = "0.1.0"
edition = "2021"
publish = false

[dependencies]
nom = "=7.1.3"
serde = { version = "1", features = ["derive"] }
serde_json = "1"
thiserror = "1"
lsp-server = "0.10"
lsp-types = "0.97"
