[package]
name = "collector"
version = "0.1.0"
edition = "2021"
publish = false

[dependencies]
anyhow = "*"
bytes = "*"
fastwebsockets = { version = "*", features = ["upgrade"] }
flate2 = "*"
http-body-util = "*"
hyper = { version = "*", features = ["http1", "client"] }
hyper-util = { version = "*", features = ["tokio"] }
jiff = "*"
reqwest = { version = "*", default-features = false, features = ["rustls-tls"] }
rustls = "*"
serde_json_borrow = "*"
thiserror = "*"
tokio = { version = "*", features = ["full"] }
tokio-rustls = "*"
tracing = "*"
url = "*"
webpki-roots = "*"
