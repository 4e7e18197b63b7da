[package]
name = "recipes"
version = "0.1.0"
edition = "2021"
publish = false

[dependencies]
uuid = { version = "*", features = ["v4"] }
axum = "*"
tokio = { version = "*", features = ["macros", "rt-multi-thread", "net"] }
serde = { version = "*", features = ["derive"] }
tower-http = { version = "*", features = ["cors"] }
diesel = { version = "*", features = ["postgres"] }
deadpool-diesel = { version = "*", features = ["postgres"] }
diesel_migrations = "*"
dotenvy = "*"
