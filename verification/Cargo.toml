[package]
name = "tonic_template"
version = "0.1.0"
edition = "2021"
publish = false

[dependencies]
rand = "0.8"
tonic = "0.11"
tonic-health = "0.11"
tonic-web = "0.11"
prost = "0.12"
hyper = { version = "0.14", features = ["client", "http1", "http2", "tcp"] }
tower = "0.4"
tokio = { version = "1", features = ["full"] }
tokio-stream = "0.1"
tokio-util = "0.7"
async-stream = "0.3"
tracing = "0.1"
tracing-subscriber = "0.3"
