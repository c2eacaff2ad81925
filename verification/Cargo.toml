[package]
name = "kafka_dashboard"
version = "0.1.0"
edition = "2021"
publish = false

[dependencies]
actix-cors = "*"
actix-files = "*"
actix-rt = "2"
actix-web = "4"
actix-ws = "*"
clap = { version = "4", features = ["derive"] }
futures-util = "0.3"
log = "0.4"
rdkafka = "0.37"
serde = { version = "1", features = ["derive"] }
serde_json = "1"
thiserror = "*"
tokio = { version = "1", features = ["full"] }
tokio-util = "0.7"
tracing = "0.1"
tracing-actix-web = "*"
tracing-subscriber = { version = "0.3", features = ["env-filter", "json"] }
