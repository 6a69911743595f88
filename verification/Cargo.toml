[package]
name = "bank_ledger"
version = "0.1.0"
edition = "2021"
publish = false

[dependencies]
rand = "=0.8.8"
axum = "=0.7.9"
tokio = { version = "=1.53.2", features = ["full"] }
sqlx = { version = "=0.8.6", default-features = false, features = ["runtime-tokio", "postgres", "chrono", "derive"] }
chrono = { version = "=0.4.45", features = ["serde"] }
dotenv = "=0.15.0"
futures = "=0.3.34"
serde = { version = "=1.0.229", features = ["derive"] }
serde_json = "=1.0.151"
strum_macros = "=0.26.4"
