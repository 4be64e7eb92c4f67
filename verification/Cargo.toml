[package]
name = "inactivity_bot"
version = "0.1.0"
edition = "2021"
publish = false

[dependencies]
chrono = "0.4"
serenity = "0.12"
poise = "0.6"
sqlx = { version = "0.8", default-features = false, features = ["runtime-tokio", "sqlite", "chrono", "macros", "migrate"] }
tokio = { version = "1", features = ["macros", "rt-multi-thread"] }
eyre = "0.6"
tracing = "0.1"
tracing-error = "0.2"
tracing-subscriber = { version = "0.3", features = ["env-filter"] }
dotenv = "0.15"
futures = "0.3"
