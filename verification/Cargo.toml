[package]
name = "reqres_kafka"
version = "0.1.0"
edition = "2021"
publish = false

[dependencies]
uuid = { version = "=1.29.0", features = ["v4"] }
tokio = { version = "=1.54.1", features = ["full"] }
axum = "0.5"
rdkafka = "=0.29.0"
reqwest = { version = "=0.11.27", default-features = false }
