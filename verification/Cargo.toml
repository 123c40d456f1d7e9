[package]
name = "craig"
version = "0.1.0"
edition = "2021"
publish = false

[dependencies]
poise = "=0.6.2"
sqlx = { version = "=0.8.6", default-features = false, features = ["runtime-tokio", "postgres", "migrate"] }
async-openai = { version = "=0.43.0", features = ["chat-completion"] }
reqwest = "=0.13.5"
dotenvy = "=0.15.7"
tokio = { version = "=1.54.1", features = ["macros", "rt-multi-thread", "signal"] }
tracing = "=0.1.44"
tracing-subscriber = { version = "=0.3.23", features = ["env-filter", "fmt"] }
thiserror = "=2.0.21"
