[package]
name = "stock_alerts"
version = "0.1.0"
edition = "2021"
publish = false

[dependencies]
scraper = "*"
hyper = { version = "0.14", features = ["client", "http1", "http2", "tcp"] }
hyper-tls = "0.5"
tokio = { version = "1", features = ["rt-multi-thread", "macros"] }
serde = { version = "1", features = ["derive"] }
serde_json = "1"
