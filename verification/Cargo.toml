[package]
name = "jvm_common"
version = "0.1.0"
edition = "2021"
publish = false

[dependencies]
tracing-subscriber = { version = "0.3", features = ["env-filter", "fmt"] }
