[package]
name = "yoo_config"
version = "0.1.0"
edition = "2021"
publish = false

[dependencies]
anyhow = "1"
async-trait = "0.1"
axum = { version = "0.6", features = ["headers", "multipart"] }
bcrypt = "0.13"
chrono = "0.4"
dotenvy = "0.15"
jsonwebtoken = "8"
once_cell = "1"
rust-s3 = { version = "0.32", default-features = false, features = ["tokio-rustls-tls"] }
sea-orm = { version = "0.10", default-features = false, features = ["macros", "with-json", "with-chrono", "postgres-array", "sqlx-postgres", "runtime-tokio-rustls"] }
sea-orm-migration = { version = "0.10", default-features = false, features = ["sqlx-postgres", "runtime-tokio-rustls"] }
serde = { version = "1", features = ["derive"] }
serde_json = "1"
tokio = { version = "1", features = ["full"] }
tower-http = { version = "0.3", features = ["cors"] }
tracing = "0.1"
tracing-subscriber = { version = "0.3", features = ["env-filter"] }
