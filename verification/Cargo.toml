[package]
name = "hex_lookup"
version = "0.1.0"
edition = "2021"
publish = false

[dependencies]
lambda_http = "*"
tokio = { version = "1", features = ["macros", "rt-multi-thread"] }
tracing = "0.1"
tracing-subscriber = "0.3"
