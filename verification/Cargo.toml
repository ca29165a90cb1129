[package]
name = "agent_kernel"
version = "0.1.0"
edition = "2021"
publish = false

[dependencies]
async-trait = "=0.1.92"
ractor = { version = "=0.16.5", features = ["async-trait"] }
serde_json = "=1.0.154"
tokio = { version = "=1.54.1", features = ["rt", "rt-multi-thread", "sync", "macros", "time"] }
uuid = { version = "=1.29.0", features = ["v4"] }
