[package]
name = "agentlite"
version = "0.1.0"
edition = "2021"
publish = false

[dependencies]
serde = { version = "=1.0.229", features = ["derive"] }
serde_json = "=1.0.154"
uuid = { version = "=1.29.0", features = ["v4"] }
chrono = "=0.4.45"
clap = { version = "=4.6.7", features = ["derive"] }
tokio = { version = "=1.54.1", features = ["full"] }
async-trait = "=0.1.92"
async-openai = { version = "=0.43.0", features = ["byot", "chat-completion"] }
rmcp = { version = "=3.8.0", features = ["client", "transport-child-process", "transport-streamable-http-client-reqwest", "reqwest"] }
http = "=1.5.0"
