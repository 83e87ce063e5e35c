[package]
name = "codex-mcp-server"
version = "0.1.0"
edition = "2021"
publish = false

[dependencies]
base64 = "0.22"
codex-app-server-sdk = "*"
rmcp = { version = "*", features = ["server", "macros", "transport-io"] }
schemars = "1"
serde = { version = "1", features = ["derive"] }
serde_json = "1"
tokio = { version = "1", features = ["macros", "rt-multi-thread", "io-std", "sync"] }
tracing = "0.1"
tracing-subscriber = { version = "0.3", features = ["env-filter"] }
anyhow = "1"
