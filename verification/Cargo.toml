[package]
name = "alloy_studio"
version = "0.1.0"
edition = "2021"
publish = false

[dependencies]
anyhow = "1"
bytes = "1"
chrono = "0.4"
clap = { version = "4", features = ["derive", "env"] }
crossbeam-channel = "0.5"
dashmap = "6"
dirs = "5"
futures = "0.3"
git2 = { version = "0.19", default-features = false }
hex = "0.4"
lsp-types = "0.94"
notify = "6"
once_cell = "1"
parking_lot = "0.12"
regex = "1"
ropey = "1"
serde = { version = "1", features = ["derive"] }
serde_json = "1"
sha2 = "0.10"
thiserror = "1"
tokio = { version = "1", features = ["full"] }
tokio-util = { version = "0.7", features = ["codec"] }
toml = "0.8"
tracing = "0.1"
tracing-subscriber = { version = "0.3", features = ["env-filter"] }
tree-sitter = "0.22"
tree-sitter-java = "0.21"
url = "2"
walkdir = "2"
which = "6"

