[package]
name = "projectlens"
version = "0.1.0"
edition = "2021"
publish = false

[dependencies]
serde = { version = "1", features = ["derive"] }
serde_json = "1"
sha2 = "0.10"
regex = "1"
pulldown-cmark = "*"
chrono = "0.4"
rand = "0.8"
rusqlite = { version = "*", features = ["bundled"] }
ignore = "0.4"
zip = "*"
cfb = "*"
keyring = "*"
uuid = { version = "1", features = ["v4"] }
tokio = { version = "1", features = ["full"] }
tokio-util = "0.7"
async-trait = "0.1"
thiserror = "*"
tree-sitter = "*"
tree-sitter-c = "*"
tree-sitter-c-sharp = "*"
tree-sitter-cpp = "*"
tree-sitter-go = "*"
tree-sitter-java = "*"
tree-sitter-javascript = "*"
tree-sitter-python = "*"
tree-sitter-rust = "*"
tree-sitter-typescript = "*"
