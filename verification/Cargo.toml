[package]
name = "ssh3"
version = "0.1.0"
edition = "2021"
publish = false

[dependencies]
base64 = "=0.22.1"
bytes = "=1.12.1"
ciborium = "=0.2.2"
dashmap = "=6.2.1"
futures = "0.3"
h3x = { version = "=0.3.1", default-features = false, features = ["dquic", "hyper"] }
http = "=1.5.0"
http-body = "1"
http-body-util = "0.1"
libc = "=0.2.191"
nix = { version = "=0.30.1", features = ["user", "process", "signal", "term", "fs", "ioctl"] }
pam-client2 = "*"
rand = "=0.9.5"
remoc = "=0.20.5"
serde = { version = "1", features = ["derive"] }
tokio = { version = "1", features = ["full"] }
tokio-util = { version = "0.7", features = ["io", "rt"] }
tower-service = "0.3"
tracing = "0.1"
tracing-appender = "0.2"
tracing-subscriber = "0.3"
