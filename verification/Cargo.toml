[package]
name = "codegen_pipeline"
version = "0.1.0"
edition = "2021"
publish = false

[dependencies]
serde_json = "1"
reqwest = { version = "0.11", default-features = false, features = ["stream"] }
tokio = { version = "1", default-features = false, features = ["rt", "rt-multi-thread"] }
futures-util = "0.3"
