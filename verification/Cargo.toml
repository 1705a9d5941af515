[package]
name = "poe2openai"
version = "0.1.0"
edition = "2021"
publish = false

[dependencies]
askama = "*"
base64 = "*"
chrono = "*"
futures-util = "*"
mimalloc = "*"
nanoid = "*"
poe_api_process = "*"
regex = "*"
salvo = { version = "*", features = ["basic-auth", "serve-static"] }
serde = { version = "*", features = ["derive"] }
serde_json = "*"
serde_yaml = "*"
sha2 = "*"
sled = "*"
tiktoken-rs = "*"
tokio = { version = "*", features = ["macros", "rt-multi-thread", "sync", "time"] }
tracing = "*"
tracing-subscriber = { version = "*", features = ["env-filter"] }
