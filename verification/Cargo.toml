[package]
name = "query_lint"
version = "0.1.0"
edition = "2021"
publish = false

[dependencies]
ropey = "1"
serde = { version = "1", features = ["derive"] }
serde_json = "1"
tokio = { version = "1", features = ["rt-multi-thread", "macros", "sync"] }
futures = "0.3"
