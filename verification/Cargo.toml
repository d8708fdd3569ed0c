[package]
name = "tiny_trails"
version = "0.1.0"
edition = "2021"
publish = false

[dependencies]
sha2 = "*"
hex = "*"
url = "*"
rand = "*"
chrono = "*"
serde = { version = "*", features = ["derive"] }
serde_json = "*"
axum = "*"
tokio = { version = "*", features = ["full"] }
sqlx = { version = "*", default-features = false, features = ["runtime-tokio", "postgres", "chrono"] }
clap = { version = "*", features = ["derive", "env"] }
tower-http = { version = "*", features = ["cors", "trace"] }
tracing-subscriber = { version = "*", features = ["env-filter"] }
log = "*"
