[package]
name = "data"
version = "0.1.0"
edition = "2021"
publish = false

[dependencies]
argon2 = { version = "=0.5.3", features = ["std"] }
async-trait = "=0.1.92"
axum = "=0.6.20"
chrono = { version = "=0.4.45", features = ["serde"] }
color-eyre = "=0.6.5"
dotenvy = "=0.15.7"
jsonwebtoken = "=8.3.0"
once_cell = "=1.21.4"
serde = { version = "=1.0.229", features = ["derive"] }
serde_json = "=1.0.154"
sqlx = { version = "=0.7.4", default-features = false, features = ["runtime-tokio", "postgres", "chrono"] }
tokio = { version = "=1.54.1", features = ["macros", "rt-multi-thread"] }
tracing = "=0.1.44"
tracing-subscriber = { version = "=0.3.23", features = ["env-filter"] }
