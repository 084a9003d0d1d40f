[package]
name = "aircraft_ingest"
version = "0.1.0"
edition = "2021"
publish = false

[dependencies]
bson = "2"
clap = { version = "4", features = ["derive"] }
colored = "2"
csv-async = { version = "1", features = ["tokio"] }
futures = "0.3"
indicatif = "0.17"
mongodb = "2"
reqwest = { version = "0.11", default-features = false, features = ["rustls-tls", "stream"] }
serde = { version = "1", features = ["derive"] }
tokio = { version = "1", features = ["full"] }
tokio-stream = "0.1"
tokio-util = { version = "0.7", features = ["io"] }
