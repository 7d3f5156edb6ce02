[package]
name = "session_refresh"
version = "0.1.0"
edition = "2021"
publish = false

[dependencies]
jsonwebtoken = "9"
serde_json = "1"
uuid = { version = "1", features = ["v4"] }
rand = "0.8"
chrono = "0.4"
serde = { version = "1", features = ["derive"] }
actix-web = "4"
actix-cors = "0.7"
sqlx = { version = "0.8", default-features = false, features = ["runtime-tokio", "tls-rustls", "postgres", "uuid", "chrono"] }
lettre = { version = "0.11", default-features = false, features = ["smtp-transport", "builder", "rustls-tls"] }
dotenv = "0.15"
env_logger = "0.11"
