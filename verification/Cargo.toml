[package]
name = "meetup_sync"
version = "0.1.0"
edition = "2021"
publish = false

[dependencies]
dotenv = "0.15"
gql_client = "1"
rand = "0.8"
serde = { version = "1", features = ["derive"] }
serenity = { version = "0.11", features = ["framework", "standard_framework"] }
sqlx = { version = "0.6", features = ["runtime-tokio-rustls", "sqlite"] }
tokio = { version = "1", features = ["macros", "rt-multi-thread", "signal", "time"] }
tracing = "0.1"
tracing-subscriber = "0.3"
