[package]
name = "thors"
version = "0.1.0"
edition = "2021"
publish = false

[dependencies]
axum = "=0.8.9"
bech32 = "=0.9.1"
chrono = { version = "=0.4.45", features = ["serde"] }
deadpool = "=0.12.3"
diesel = { version = "=2.2.12", default-features = false, features = ["chrono", "postgres_backend"] }
diesel-async = { version = "=0.5.2", features = ["async-connection-wrapper", "deadpool", "postgres"] }
diesel_migrations = "2.2"
dotenvy = "=0.15.7"
futures = "=0.3.34"
hex = "=0.4.3"
serde = { version = "=1.0.229", features = ["derive"] }
serde_json = "=1.0.154"
thiserror = "=1.0.69"
tokio = { version = "=1.54.1", features = ["macros", "net", "rt-multi-thread", "sync", "time"] }
tokio-stream = { version = "=0.1.19", features = ["sync"] }
tonic_lnd = "=0.5.1"
tower-http = { version = "=0.6.11", features = ["cors"] }
tracing = "=0.1.44"
tracing-subscriber = "=0.3.23"
