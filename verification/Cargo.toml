[package]
name = "rig_semantic_router"
version = "0.1.0"
edition = "2021"
publish = false

[dependencies]
uuid = { version = "=1.27.0", features = ["v4"] }
serde = { version = "=1.0.229", features = ["derive"] }
serde_json = "=1.0.151"
qdrant-client = "=1.19.0"
rig-core = { version = "=0.43.0", features = ["reqwest"] }
rig-qdrant = "=0.43.0"
tokio = { version = "=1.53.2", features = ["macros", "rt-multi-thread"] }
