[package]
name = "duckdoor"
version = "0.2.0"
edition = "2021"
publish = false

[dependencies]
anyhow = "1"
arc-swap = "1"
axum = { version = "0.8", default-features = false, features = ["http1", "json", "tokio"] }
base64 = "=0.22.1"
clap = { version = "4", features = ["derive", "env"] }
csv = "=1.4.0"
directories = "6"
duckdb = { version = "=1.10505.0", default-features = false }
fs2 = "0.4"
reqwest = { version = "0.12", default-features = false, features = ["blocking", "json"] }
serde = { version = "1", features = ["derive"] }
serde_json = "1"
sqlparser = { version = "=0.63.0", features = ["visitor"] }
tempfile = "3"
tokio = { version = "1", features = ["macros", "net", "rt-multi-thread", "signal", "sync", "time"] }
toml = "=1.1.8"
tower-http = { version = "0.6", features = ["catch-panic", "limit", "timeout", "trace"] }
tracing = "0.1"
tracing-subscriber = { version = "0.3", features = ["env-filter", "json"] }
