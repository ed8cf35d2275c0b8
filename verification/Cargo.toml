[package]
name = "mechanics_http_client"
version = "0.2.4"
edition = "2021"
publish = false

[dependencies]
brotli = "8"
bytes = "1"
flate2 = "1"
h3 = "0.0.8"
h3-quinn = "0.0.10"
http = "1"
http-body = "1"
http-body-util = "0.1"
hyper = { version = "1", default-features = false, features = ["client", "http1", "http2"] }
hyper-rustls = { version = "0.27", default-features = false, features = ["http1", "http2", "tls12", "aws-lc-rs"] }
hyper-util = { version = "0.1", default-features = false, features = ["client", "client-legacy", "http1", "http2", "tokio"] }
quinn = { version = "0.11", default-features = false, features = ["runtime-tokio", "rustls-aws-lc-rs"] }
rustls = { version = "0.23", default-features = false, features = ["std", "tls12", "aws_lc_rs"] }
serde = { version = "1", features = ["derive"] }
serde_json = "1"
thiserror = "2"
tokio = { version = "1", features = ["rt", "time", "net"] }
tower-service = "0.3"
webpki-roots = "1"
