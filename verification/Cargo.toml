[package]
name = "twarq"
version = "0.1.0"
edition = "2021"
publish = false

[dependencies]
anyhow = "=1.0.104"
axum = { version = "=0.8.9", default-features = false, features = ["http1", "tokio"] }
clap = { version = "=4.6.7", features = ["derive"] }
duckdb = { version = "=1.20000.1", default-features = false }
rmcp = { version = "=3.8.0", features = ["server", "macros", "transport-io", "transport-streamable-http-server"] }
schemars = "=1.2.3"
serde = { version = "=1.0.229", features = ["derive"] }
serde_json = "=1.0.154"
tokio = { version = "=1.54.1", features = ["rt", "rt-multi-thread", "net", "io-util", "io-std", "macros"] }
zip = { version = "=9.2.2", default-features = false, features = ["deflate"] }
