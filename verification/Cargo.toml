[package]
name = "cortexflow_cli"
version = "0.1.0"
edition = "2021"
publish = false

[dependencies]
anyhow = "1"
clap = { version = "4", features = ["derive"] }
colored = "*"
kube = { version = "*", default-features = false, features = ["client", "rustls-tls"] }
k8s-openapi = { version = "*", features = ["latest"] }
tokio = { version = "1", features = ["rt-multi-thread", "macros"] }
