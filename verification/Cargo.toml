[package]
name = "ikigai_llm"
version = "0.1.0"
edition = "2021"
publish = false

[dependencies]
async-trait = "0.1"
futures = "0.3"
ikigai-core = "0.1"
ikigai-http = "0.1"
serde = { version = "1", features = ["derive"] }
serde_json = "1"
ureq = { version = "2", default-features = false }
url = "2"
