[package]
name = "auth_core"
version = "0.1.0"
edition = "2021"
publish = false

[dependencies]
axum = "0.6"
bcrypt = "0.15"
chrono = { version = "0.4", default-features = false, features = ["clock"] }
jsonwebtoken = "9"
rusqlite = "0.31"
serde = { version = "1", features = ["derive"] }
serde_json = "1"
tokio = { version = "1", features = ["full"] }
toml = "0.8"
uuid = { version = "1", features = ["v4"] }
