[package]
name = "logsearcher"
version = "0.1.0"
edition = "2021"
publish = false

[dependencies]
amqprs = "=2.1.5"
axum = "=0.8.9"
chrono = { version = "=0.4.45", features = ["serde"] }
deadpool-postgres = "=0.14.2"
futures = "=0.3.34"
serde = { version = "=1.0.229", features = ["derive"] }
serde_json = "=1.0.151"
tokio = { version = "=1.53.2", features = ["full"] }
tokio-postgres = { version = "=0.7.18", features = ["with-chrono-0_4", "with-serde_json-1"] }
tower-http = { version = "=0.7.1", features = ["cors"] }
