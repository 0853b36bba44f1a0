[package]
name = "capgate"
version = "0.1.0"
edition = "2021"
publish = false

[dependencies]
axum = "*"
dotenv = "*"
serde = { version = "*", features = ["derive"] }
serde_json = "*"
sqlx = { version = "*", features = ["runtime-tokio", "sqlite"] }
tokio = { version = "*", features = ["macros", "rt-multi-thread", "net"] }
