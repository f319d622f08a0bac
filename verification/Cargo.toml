[package]
name = "habitat"
version = "0.1.0"
edition = "2021"
publish = false

[dependencies]
anyhow = "=1.0.104"
async-trait = "=0.1.92"
axum = "=0.8.9"
axum-server = { version = "=0.8.0", features = ["tls-rustls"] }
chrono = "=0.4.45"
clap = { version = "=4.6.7", features = ["derive"] }
futures = "=0.3.34"
k8s-openapi = { version = "=0.27.1", features = ["latest"] }
kube = { version = "=3.1.0", features = ["derive", "runtime", "admission"] }
lazy_static = "=1.5.1"
regex = "=1.13.1"
schemars = "=1.2.2"
serde = { version = "=1.0.229", features = ["derive"] }
serde_json = "=1.0.151"
tokio = { version = "=1.53.2", features = ["macros", "rt-multi-thread", "signal", "time"] }
tracing = "=0.1.44"
tracing-subscriber = "=0.3.23"
