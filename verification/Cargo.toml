[package]
name = "backend"
version = "0.1.0"
edition = "2021"
publish = false

[dependencies]
salvo = { version = "=0.83.0", features = ["oapi"] }
salvo-oapi = { version = "=0.83.0", features = ["swagger-ui"] }
serde = { version = "=1.0.229", features = ["derive"] }
tokio = { version = "=1.53.2", features = ["macros", "rt-multi-thread"] }
tracing-subscriber = "=0.3.23"
