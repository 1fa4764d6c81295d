[package]
name = "schema_migrate"
version = "0.1.0"
edition = "2021"
publish = false

[dependencies]
async-trait = "=0.1.92"
quaint = { version = "=0.1.13", features = ["single"] }
rust_decimal = { version = "=1.7.0", features = ["db-tokio-postgres"] }
serde = { version = "=1.0.229", features = ["derive"] }
serde_json = "=1.0.154"
tokio = { version = "=1.54.1", features = ["time"] }
tracing = "=0.1.44"
