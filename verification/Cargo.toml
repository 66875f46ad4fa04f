[package]
name = "nvim-mcp"
version = "0.1.0"
edition = "2021"
publish = false

[dependencies]
rmpv = "=1.3.1"
serde_json = "=1.0.154"
serde = { version = "=1.0.229", features = ["derive"] }
tokio = { version = "=1.54.1", features = ["full"] }
nvim-rs = { version = "=0.9.2", features = ["use_tokio"] }
rmcp = { version = "=3.8.0", features = ["server", "macros", "transport-io", "transport-streamable-http-server"] }
schemars = "=1.2.3"
hyper = { version = "=1.12.0", features = ["server", "http1", "http2"] }
hyper-util = { version = "=0.1.21", features = ["tokio", "server", "server-auto", "service", "http1", "http2"] }
http-body-util = "=0.1.5"
bytes = "=1.12.1"
clap = { version = "=4.6.7", features = ["derive"] }
tracing = "=0.1.44"
tracing-subscriber = { version = "=0.3.23", features = ["env-filter"] }
tracing-appender = "=0.2.5"
async-trait = "=0.1.92"
futures = "=0.3.34"
blake3 = { version = "1", features = ["pure"] }
