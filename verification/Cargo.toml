[package]
name = "ragchat"
version = "0.1.0"
edition = "2021"
publish = false

[dependencies]
anyhow = "*"
flowsnet-platform-sdk = "*"
llmservice-flows = "*"
log = "*"
nalgebra = "*"
openai-flows = "*"
serde_json = "*"
store-flows = "*"
tokio = { version = "*", features = ["macros", "rt"] }
vector-store-flows = "*"
webhook-flows = "*"
