[package]
name = "rustunnel_server"
version = "0.7.0"
edition = "2021"
publish = false

[dependencies]
axum = "=0.7.9"
bytes = "=1.12.1"
chrono = { version = "=0.4.45", features = ["serde"] }
dashmap = "=6.2.1"
futures-util = { version = "=0.3.34", features = ["sink"] }
hex = "=0.4.3"
http-body-util = "=0.1.5"
hyper = { version = "=1.12.0", features = ["client", "http1", "server"] }
hyper-util = { version = "=0.1.21", features = ["tokio", "server", "http1"] }
parking_lot = "=0.12.5"
rand = "=0.8.8"
rustls = { version = "=0.23.46", default-features = false, features = ["ring", "std"] }
serde = { version = "=1.0.229", features = ["derive"] }
serde_json = "=1.0.154"
sha2 = "=0.10.9"
sqlx = { version = "=0.8.6", default-features = false, features = ["runtime-tokio", "postgres", "sqlite", "uuid", "chrono", "derive"] }
subtle = "=2.6.1"
tokio = { version = "=1.54.1", features = ["full"] }
tokio-rustls = { version = "=0.26.6", default-features = false, features = ["ring"] }
tokio-stream = { version = "=0.1.19", features = ["sync"] }
tokio-tungstenite = "=0.24.0"
tokio-util = { version = "=0.7.20", features = ["compat", "io"] }
tower-http = { version = "=0.5.2", features = ["cors"] }
tracing = "=0.1.44"
uuid = { version = "=1.29.0", features = ["v4", "serde"] }
yamux = "=0.13.10"
