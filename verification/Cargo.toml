[package]
name = "batched"
version = "0.1.0"
edition = "2021"
publish = false

[dependencies]
proc-macro2 = "1"
quote = "1"
syn = { version = "2", features = ["full"] }
tokio = { version = "1", features = ["sync", "rt", "rt-multi-thread", "time", "macros"] }
tracing = "0.1"
tracing-opentelemetry = "*"
opentelemetry = "*"
