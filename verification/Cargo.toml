[package]
name = "docs_mcp"
version = "0.1.0"
edition = "2021"
publish = false

[dependencies]
regex = "1"
serde_json = "1"
serde = { version = "1", features = ["derive"] }
semver = "1"
sha2 = "0.10"
hex = "0.4"
zstd = "0.13"
chrono = "0.4"
directories = "*"
thiserror = "*"
anyhow = "1"
tokio = { version = "1", features = ["full"] }
reqwest = { version = "0.12", default-features = false, features = ["json"] }
reqwest-middleware = "*"
rmcp = { version = "*", features = ["server", "macros", "transport-io"] }
async-trait = "0.1"
governor = "*"
http = "1"
nonzero_ext = "*"
tracing-subscriber = { version = "0.3", features = ["env-filter"] }
