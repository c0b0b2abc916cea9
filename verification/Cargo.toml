[package]
name = "codex-acp"
version = "0.1.0"
edition = "2021"
publish = false

[dependencies]
agent-client-protocol = { version = "=2.2.0", features = ["unstable_mcp_over_acp"] }
anyhow = "1"
rmcp = { version = "=0.12.0", features = ["server", "transport-io"] }
serde = { version = "1", features = ["derive"] }
serde_json = { version = "=1.0.154", features = ["preserve_order", "raw_value"] }
tokio = { version = "1", features = ["rt", "net", "io-util", "io-std", "sync", "time", "macros"] }
tracing = "0.1"
tracing-subscriber = { version = "0.3", features = ["env-filter"] }
