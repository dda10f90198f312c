[package]
name = "synapse"
version = "0.1.0"
edition = "2021"
publish = false

[dependencies]
tree-sitter = "=0.22.6"
tree-sitter-rust = "=0.21.2"
tree-sitter-javascript = "=0.21.4"
tree-sitter-typescript = "=0.21.2"
tree-sitter-go = "=0.21.2"
tree-sitter-python = "=0.21.0"
tree-sitter-c = "=0.21.4"
tree-sitter-cpp = "=0.22.3"
tree-sitter-java = "=0.21.0"
tree-sitter-kotlin = "=0.3.8"
tree-sitter-ruby = "=0.21.0"
tree-sitter-php = "=0.22.8"
tree-sitter-swift = "=0.5.0"
sha2 = "=0.10.9"
hex = "=0.4.3"
serde = { version = "=1.0.229", features = ["derive"] }
serde_json = "=1.0.154"
anyhow = "1"
async-trait = "*"
clap = { version = "4", features = ["derive"] }
ctrlc = "*"
ignore = "*"
indicatif = "*"
lbug = "*"
notify = "*"
rmcp = { version = "*", features = ["server", "transport-io"] }
rustyline = "*"
thiserror = "*"
tokio = { version = "1", features = ["full"] }
fastembed = { version = "*", default-features = false }
