[package]
name = "auth_core"
version = "0.1.0"
edition = "2021"
publish = false

[dependencies]
argon2 = "=0.5.3"
jsonwebtoken = { version = "=11.1.0", features = ["rust_crypto"] }
base64 = "=0.22.1"
serde = { version = "=1.0.229", features = ["derive"] }
uuid = { version = "=1.27.0", features = ["v4", "serde"] }
axum = "=0.8.9"
tokio = { version = "=1.53.2", features = ["rt-multi-thread", "net", "macros"] }
sqlx = { version = "=0.9.0", default-features = false, features = ["runtime-tokio", "postgres", "chrono", "uuid", "derive"] }
chrono = { version = "=0.4.45", features = ["serde"] }
dotenvy = "=0.15.7"
