[package]
name = "platform_poc"
version = "0.1.0"
edition = "2021"
publish = false

[dependencies]
uuid = { version = "1", features = ["v4", "serde"] }
routefinder = "0.5"
url = "2"
bigdecimal = { version = "0.4", features = ["serde"] }
serde = { version = "1", features = ["derive"] }
serde_json = "1"
anyhow = "1"
thiserror = "1"
tokio = { version = "1", features = ["full"] }
axum = { version = "0.7", features = ["macros"] }
axum-extra = { version = "0.9", features = ["query"] }
sqlx = { version = "0.8", default-features = false, features = ["runtime-tokio", "postgres", "bigdecimal", "uuid", "macros", "migrate"] }
envy = "0.4"
dotenv = "0.15"
async-nats = "0.35"
reqwest = { version = "0.12", default-features = false, features = ["json", "rustls-tls"] }
redis = { version = "0.27", features = ["tokio-comp", "aio"] }
tracing = "0.1"
tracing-subscriber = { version = "0.3", features = ["env-filter"] }
tower-http = { version = "0.5", features = ["trace"] }
futures = "0.3"
backoff = "0.4"
itertools = "0.13"
rdkafka = "0.36"
