[package]
name = "mcpkit-rs"
version = "0.1.0"
edition = "2021"
publish = false

[dependencies]
globset = "0.4"
sha2 = "0.10"
hex = "0.4"
semver = "1"
lru = "0.12"
serde = { version = "1", features = ["derive"] }
serde_json = "1"
serde_yaml = "0.9"
toml = "0.8"
thiserror = "1"
anyhow = "1"
dirs = "5"
tokio = { version = "1", features = ["rt", "rt-multi-thread", "sync", "macros", "time", "signal"] }
clap = { version = "4", features = ["derive", "env"] }
colored = "2"
indicatif = "0.17"
chrono = { version = "0.4", default-features = false, features = ["clock", "std"] }
tracing = "0.1"
tracing-subscriber = { version = "0.3", features = ["env-filter"] }
async-trait = "0.1"
reqwest = { version = "0.12", default-features = false, features = ["json"] }
darling = "0.20"
syn = { version = "2", features = ["full"] }
quote = "1"
proc-macro2 = "1"
