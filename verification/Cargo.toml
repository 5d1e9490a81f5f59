[package]
name = "lasso_zen_bre"
version = "0.1.0"
edition = "2021"
publish = false

[dependencies]
zen-engine = { version = "=0.43.1", default-features = false }
serde_json = { version = "=1.0.154", features = ["arbitrary_precision"] }
serde = { version = "=1.0.229", features = ["derive"] }
tokio = { version = "=1.54.1", features = ["rt-multi-thread", "macros", "net", "signal", "sync", "time"] }
arc-swap = "=1.9.3"
tracing = "=0.1.44"
axum = "0.8"
tracing-subscriber = { version = "0.3", features = ["env-filter", "json"] }
