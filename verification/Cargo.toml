[package]
name = "fleetops"
version = "0.1.0"
edition = "2021"
publish = false

[dependencies]
anyhow = "1"
axum = "0.7"
backon = "1"
bollard = "0.17"
chrono = "0.4"
clap = { version = "4", features = ["derive"] }
dotenvy = "0.15"
futures-util = "0.3"
log = "0.4"
metrics = "0.23"
reqwest = { version = "0.12", default-features = false, features = ["json", "rustls-tls"] }
serde = { version = "1", features = ["derive"] }
serde_json = "1"
subtle = "2"
thiserror = "1"
tokio = { version = "1", features = ["full"] }
tower-http = { version = "0.5", features = ["trace"] }
tracing = "0.1"
tracing-log = "0.2"
tracing-subscriber = { version = "0.3", features = ["env-filter"] }
urlencoding = "2"
