[package]
name = "binary_analysis"
version = "0.1.0"
edition = "2021"
publish = false

[dependencies]
sha2 = "=0.11.0"
hex = "=0.4.3"
async-trait = "=0.1.92"
clap = { version = "=4.6.7", features = ["derive"] }
rust-mcp-sdk = { version = "=0.7.4", default-features = false, features = ["client", "server", "macros", "stdio", "sse", "streamable-http", "hyper-server", "2025_06_18"] }
serde = { version = "=1.0.229", features = ["derive"] }
serde_json = "=1.0.151"
tokio = { version = "=1.53.2", features = ["macros", "rt-multi-thread", "sync", "fs", "time"] }
tracing-subscriber = { version = "=0.3.23", features = ["env-filter", "fmt"] }
