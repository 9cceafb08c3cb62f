[package]
name = "secret_spread"
version = "0.1.0"
edition = "2021"
publish = false

[dependencies]
futures = "*"
k8s-openapi = { version = "*", features = ["latest"] }
kube = { version = "*", features = ["runtime", "client"] }
serde_json = "*"
thiserror = "*"
tokio = { version = "*", features = ["macros", "rt-multi-thread"] }
