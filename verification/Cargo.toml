[package]
name = "extractor"
version = "0.2.0"
edition = "2021"
publish = false

[dependencies]
anyhow = "=1.0.104"
async-trait = "=0.1.92"
chrono = { version = "=0.4.45", features = ["serde"] }
clap = { version = "=4.6.7", features = ["derive", "env"] }
lapin = { version = "=4.12.3", default-features = false, features = ["tokio"] }
num_cpus = "=1.17.0"
opentelemetry = "=0.31.0"
opentelemetry-otlp = "=0.31.1"
opentelemetry_sdk = { version = "=0.31.0", features = ["spec_unstable_metrics_views"] }
serde = { version = "=1.0.229", features = ["derive"] }
serde_json = "=1.0.154"
tokio = { version = "=1.54.1", features = ["full"] }
tracing = "=0.1.44"
tracing-opentelemetry = "=0.32.1"
tracing-subscriber = { version = "=0.3.23", features = ["env-filter", "json"] }
urlencoding = "=2.1.3"
