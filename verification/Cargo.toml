[package]
name = "tool_agent"
version = "0.1.0"
edition = "2021"
publish = false

[dependencies]
anyhow = "1"
bytes = "1"
futures-util = "0.3"
quote = "1"
reqwest = { version = "0.12", features = ["json", "stream"] }
ringbuffer = "0.15"
serde = { version = "1", features = ["derive"] }
serde_json = "1"
syn = "2"
tokio = { version = "1", features = ["rt-multi-thread"] }
