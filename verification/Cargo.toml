[package]
name = "asi"
version = "0.1.0"
edition = "2021"
publish = false

[dependencies]
serde = { version = "=1.0.229", features = ["derive"] }
serde_json = "=1.0.154"
thiserror = "=2.0.21"
tokio = { version = "=1.54.1", features = ["rt-multi-thread", "macros", "time", "sync"] }
tokio-stream = "=0.1.19"
tracing = "=0.1.44"
async-trait = "=0.1.92"
futures-core = "=0.3.34"
axum = "=0.8.9"
jsonwebtoken = { version = "=11.1.0", features = ["rust_crypto"] }
reqwest = { version = "=0.13.5", default-features = false, features = ["json", "stream"] }
