[package]
name = "build-proxy"
version = "0.1.0"
edition = "2021"
publish = false

[dependencies]
axum = "0.8"
axum-extra = "0.10"
clap = { version = "4", features = ["derive"] }
futures = "0.3"
hyper = { version = "1", features = ["client", "http1"] }
hyper-util = { version = "0.1", features = ["tokio"] }
indicatif = "0.17"
nix = { version = "0.30", features = ["process", "signal"] }
notify = "8"
parking_lot = "0.12"
pin-project-lite = "0.2"
rand = "0.9"
strip-ansi-escapes = "0.2"
tokio = { version = "1", features = ["full"] }
tokio-stream = "0.1"
tower = { version = "0.5", features = ["util"] }
tower-http = { version = "0.6", features = ["request-id", "sensitive-headers", "trace", "util"] }
tracing = "0.1"
tracing-indicatif = "0.3"
tracing-subscriber = { version = "0.3", features = ["env-filter"] }
