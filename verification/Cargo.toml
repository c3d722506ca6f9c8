[package]
name = "lobby_core"
version = "0.1.0"
edition = "2021"
publish = false

[dependencies]
jsonwebtoken = { version = "=11.1.0", features = ["rust_crypto"] }
serde = { version = "=1.0.229", features = ["derive"] }
serde_json = "=1.0.151"
axum = { version = "=0.8.9", features = ["ws"] }
axum-extra = { version = "=0.12.6", features = ["typed-header"] }
tokio = { version = "=1.53.2", features = ["rt-multi-thread", "macros", "net", "sync"] }
redis = { version = "=1.7.1", features = ["tokio-comp"] }
sqlx = { version = "=0.9.0", features = ["runtime-tokio", "postgres"] }
dotenvy = "=0.15.7"
futures-util = "=0.3.34"
