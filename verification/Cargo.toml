[package]
name = "hello_faas"
version = "0.1.0"
edition = "2021"
publish = false

[dependencies]
uuid = { version = "1", features = ["v4"] }
axum = { version = "0.6", features = ["multipart"] }
hyper = { version = "0.14", features = ["client", "http1", "tcp"] }
tokio = { version = "1", features = ["macros", "rt-multi-thread", "sync", "fs", "io-util"] }
serde = { version = "1", features = ["derive"] }
serde_json = "1"
toml = "0.7"
dotenv = "0.15"
futures = "0.3"
thiserror = "1"
tower = "0.4"
tower-http = { version = "0.4", features = ["trace"] }
tracing = "0.1"
tracing-subscriber = "0.3"
sqlx = { version = "0.7", default-features = false, features = ["runtime-tokio", "postgres", "time", "migrate", "macros"] }
shiplift = { version = "0.7", default-features = false, features = ["unix-socket"] }
reqwest = { version = "0.11", default-features = false, features = ["multipart"] }
