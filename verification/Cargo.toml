[package]
name = "external_pod_autoscaler"
version = "0.1.0"
edition = "2021"
publish = false

[dependencies]
anyhow = "1"
async-channel = "2"
axum = "0.7"
axum-server = { version = "0.7", features = ["tls-rustls"] }
base64 = "=0.22.1"
dashmap = "=6.2.1"
fnv = "=1.0.7"
futures = "0.3"
humantime = "=2.4.0"
json-patch = "=4.2.0"
k8s-openapi = { version = "=0.27.1", features = ["latest", "schemars"] }
kube = { version = "=3.1.0", features = ["runtime", "unstable-runtime", "derive"] }
prometheus = "0.13"
reqwest = { version = "0.12", default-features = false, features = ["json", "rustls-tls"] }
rustls = { version = "0.23", default-features = false, features = ["ring", "std"] }
schemars = "1"
serde = { version = "1", features = ["derive"] }
serde_json = "=1.0.154"
thiserror = "2"
tokio = { version = "1", features = ["full"] }
tracing = "0.1"
tracing-subscriber = { version = "0.3", features = ["env-filter", "json"] }
