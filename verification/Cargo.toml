[package]
name = "tunnel_control"
version = "0.1.0"
edition = "2021"
publish = false

[dependencies]
flate2 = "1"
futures = "=0.3.34"
gethostname = "=1.1.0"
hyper = { version = "=0.14.32", features = ["client", "http1"] }
rmp-serde = "=1.3.1"
serde = { version = "=1.0.229", features = ["derive"] }
tokio = { version = "=1.53.2", features = ["full"] }
