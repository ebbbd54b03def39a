[package]
name = "embed_pipeline"
version = "0.1.0"
edition = "2021"
publish = false

[dependencies]
base64 = "*"
tokenizers = "*"
ort = { version = "=2.0.0-rc.13", default-features = false, features = ["std", "ndarray", "api-27"] }
ndarray = "*"
serde = { version = "*", features = ["derive"] }
tokio = { version = "*", features = ["rt-multi-thread", "macros", "sync", "fs"] }
