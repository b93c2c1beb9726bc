[package]
name = "golem_cli"
version = "0.1.0"
edition = "2021"
publish = false

[dependencies]
wasmparser = "=0.263.0"
wasm-encoder = "=0.263.0"
wasm-metadata = "=0.263.0"
anyhow = "=1.0.104"
serde = { version = "=1.0.229", features = ["derive"] }
tokio = { version = "=1.54.1", features = ["full"] }
rmcp = "=3.8.0"
rust-mcp-sdk = "=0.4.7"
golem-templates = "=1.3.1"
serde_json = "=1.0.154"
async-trait = "=0.1.92"
