[package]
name = "arroyo-planner"
version = "0.1.0"
edition = "2021"
publish = false

[dependencies]
anyhow = "1"
arrow-array = "=50.0.0"
arrow-schema = { version = "=50.0.0", features = ["serde"] }
async-trait = "0.1"
axum = { version = "0.6", features = ["headers"] }
chrono = { version = "=0.4.39", default-features = false }
datafusion = { version = "35", default-features = false }
datafusion-common = { version = "35", default-features = false }
datafusion-execution = "35"
datafusion-expr = "35"
datafusion-physical-expr = { version = "35", default-features = false }
datafusion-proto = "35"
petgraph = "=0.6.5"
prost = "=0.12.6"
rand = "0.8"
serde = { version = "1", features = ["derive"] }
serde_json = "=1.0.154"
thiserror = "1"
tokio = { version = "1", features = ["rt", "rt-multi-thread", "sync", "time", "macros"] }
tokio-stream = "0.1"
tracing = "0.1"
