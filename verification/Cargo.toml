[package]
name = "kubesql"
version = "0.1.0"
edition = "2021"
publish = false

[dependencies]
sqlparser = "=0.9.0"
anyhow = "=1.0.104"
clap = "=2.34.0"
prettytable-rs = "=0.8.0"
tokio = { version = "1", features = ["full"] }
kube = { version = "0.52", default-features = false, features = ["rustls-tls"] }
k8s-openapi = { version = "0.11", default-features = false, features = ["v1_20"] }
