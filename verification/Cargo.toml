[package]
name = "query_gateway"
version = "0.1.0"
edition = "2021"
publish = false

[dependencies]
argh = "0.1"
axum = "0.8"
clickhouse = "0.13"
serde = { version = "1", features = ["derive"] }
tokio = { version = "1", features = ["full"] }
tower-http = { version = "0.6", features = ["compression-br", "compression-deflate", "compression-gzip"] }
