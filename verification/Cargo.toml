[package]
name = "multiway"
version = "0.1.0"
edition = "2021"
publish = false

[dependencies]
arc-swap = "=1.9.3"
bytes = "=1.12.1"
clap = { version = "=4.6.7", features = ["derive", "env"] }
futures = "=0.3.34"
http = "=1.5.0"
k8s-openapi = { version = "=0.25.0", features = ["latest"] }
kube = { version = "=1.1.0", default-features = false, features = ["client", "runtime", "rustls-tls", "aws-lc-rs"] }
miette = "=7.6.0"
monoio = "=0.2.4"
monoio-http = "=0.3.12"
monoio-rustls = "=0.4.0"
monoio-transports = "=0.5.3"
rand = "=0.9.5"
regex = "=1.13.1"
rustls = "=0.23.46"
rustls-pemfile = "=2.2.0"
serde = { version = "=1.0.229", features = ["derive"] }
serde_json = "=1.0.154"
service-async = "=0.2.4"
thiserror = "=2.0.21"
tokio = { version = "=1.54.1", features = ["rt-multi-thread", "macros", "time"] }
tracing = "=0.1.44"

[dev-dependencies]
rcgen = "=0.13.2"
