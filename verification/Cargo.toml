[package]
name = "jellifit"
version = "0.1.0"
edition = "2021"
publish = false

[dependencies]
axum = "=0.6.20"
chrono = "=0.4.45"
dotenvy = "=0.15.7"
punycode = "=0.4.1"
rand = "=0.8.8"
serde = { version = "=1.0.229", features = ["derive"] }
serde_json = "=1.0.154"
tokio = { version = "=1.54.1", features = ["macros", "rt-multi-thread", "signal"] }
tower = "=0.4.13"
tower-http = { version = "=0.4.4", features = ["cors", "trace"] }
tower_governor = "=0.0.4"
tracing = "=0.1.44"
tracing-subscriber = "=0.3.23"
utoipa = { version = "=3.5.0", features = ["axum_extras"] }
utoipa-swagger-ui = { version = "=3.1.5", features = ["axum"] }

[dev-dependencies]
regex = "=1.13.1"
