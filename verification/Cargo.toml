[package]
name = "memory_mcp"
version = "0.1.0"
edition = "2021"
publish = false

[dependencies]
anyhow = "1"
rmcp = { version = "*", features = ["server", "transport-io"] }
serde = { version = "1", features = ["derive"] }
tokio = { version = "1", features = ["macros", "rt-multi-thread", "io-std"] }
