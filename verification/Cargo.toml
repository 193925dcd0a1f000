[package]
name = "tlong"
version = "0.1.0"
edition = "2021"
publish = false

[dependencies]
sha2 = "=0.11.0"
bs58 = "=0.5.1"
url = "=2.5.8"
axum = "=0.8.9"
tokio = { version = "=1.53.2", features = ["full"] }
sqlx = { version = "=0.9.0", default-features = false, features = ["postgres", "runtime-tokio", "chrono"] }
redis = { version = "=1.7.1", features = ["r2d2"] }
r2d2 = "=0.8.10"
serde = { version = "=1.0.229", features = ["derive"] }
serde_json = "=1.0.151"
chrono = "=0.4.45"
tower = { version = "=0.5.3", features = ["timeout", "util"] }
