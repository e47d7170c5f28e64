[package]
name = "hydra_lsp"
version = "0.1.0"
edition = "2021"
publish = false

[dependencies]
serde_yaml = "=0.9.34"
ruff_python_ast = ">=0.0.1, <0.0.8"
ruff_python_parser = ">=0.0.1, <0.0.8"
tower-lsp = "=0.20.0"
tokio = { version = "=1.53.2", features = ["full"] }
dashmap = "=6.2.1"
anyhow = "=1.0.104"
tracing = "=0.1.44"
tracing-subscriber = "=0.3.23"
