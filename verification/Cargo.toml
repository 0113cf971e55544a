[package]
name = "opentelemetry-prometheus-text-exporter"
version = "0.1.0"
edition = "2021"
publish = false

[dependencies]
opentelemetry = { version = "=0.33.1", default-features = false, features = ["metrics"] }
opentelemetry_sdk = { version = "=0.33.1", default-features = false, features = ["metrics", "experimental_metrics_custom_reader"] }
