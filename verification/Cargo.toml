[package]
name = "llm_sidecar"
version = "0.1.0"
edition = "2021"
publish = false

[dependencies]
serde_json = "=1.0.154"
tokio = { version = "=1.54.1", features = ["time"] }
rig-core = "=0.31.0"
