[package]
name = "study_tracker"
version = "0.1.0"
edition = "2021"
publish = false

[dependencies]
scraper = "0.17"
tokio = { version = "1", features = ["macros", "rt-multi-thread", "signal"] }
axum = "0.6"
redis = { version = "0.25", features = ["tokio-comp"] }
reqwest = { version = "0.11", features = ["cookies"] }
serde = { version = "1", features = ["derive"] }
serde_json = "1"
prost = "0.12"
chrono = "0.4"
chrono-tz = "0.8"
anyhow = "1"
tracing = "0.1"
tracing-subscriber = { version = "0.3", features = ["env-filter", "fmt"] }
tower-http = { version = "0.4", features = ["fs", "trace"] }
