[package]
name = "homebase"
version = "0.1.0"
edition = "2021"
publish = false

[dependencies]
rust_decimal = { version = "=1.43.0", features = ["serde-with-str"] }
regex = "=1.13.1"
password-auth = "=1.0.0"
anyhow = "=1.0.104"
axum = { version = "=0.8.9", features = ["multipart"] }
axum-login = "=0.18.0"
chrono = { version = "=0.4.45", features = ["serde"] }
csv = "=1.4.0"
dotenvy = "=0.15.7"
maud = { version = "=0.27.0", features = ["axum"] }
mime_guess = "=2.0.5"
rust-embed = { version = "=8.13.0", features = ["interpolate-folder-path"] }
serde = { version = "=1.0.229", features = ["derive"] }
sqlx = { version = "=0.8.6", default-features = false, features = ["sqlite", "runtime-tokio", "chrono", "migrate"] }
thiserror = "=2.0.21"
time = "=0.3.55"
tokio = { version = "=1.54.1", features = ["full"] }
tower_governor = "=0.8.0"
tower-http = { version = "=0.7.1", features = ["trace", "limit"] }
tower-sessions-sqlx-store = { version = "=0.15.0", features = ["sqlite"] }
tracing = "=0.1.44"
tracing-subscriber = "=0.3.23"
