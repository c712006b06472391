[package]
name = "delta_ingest"
version = "0.1.0"
edition = "2021"
publish = false

[dependencies]
serde_json = "*"
rand = "*"
chrono = "*"
serde = { version = "*", features = ["derive"] }
uuid = { version = "*", features = ["v4"] }
tokio = { version = "*", features = ["rt-multi-thread", "macros"] }
rdkafka = "*"
deltalake = "*"
