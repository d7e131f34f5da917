[package]
name = "demo_cc"
version = "0.1.0"
edition = "2021"
publish = false

[dependencies]
anthropic-ai-sdk = "*"
anyhow = "1"
async-trait = "0.1"
chrono = "0.4"
dotenvy = "0.15"
inquire = "*"
serde = { version = "1", features = ["derive"] }
serde_json = "1"
strum = "*"
strum_macros = "*"
tera = "1"
tokio = { version = "1", features = ["full"] }
tracing = "0.1"
tracing-subscriber = "0.3"
