[package]
name = "nickel_query"
version = "0.1.0"
edition = "2021"
publish = false

[dependencies]
clap = { version = "4", features = ["derive"] }
lsp-server = "*"
lsp-types = "*"
nickel-lang-core = "*"

[dev-dependencies]
serde_json = "1"
