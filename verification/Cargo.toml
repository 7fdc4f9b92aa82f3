[package]
name = "adstxt"
version = "1.0.2"
edition = "2021"
publish = false

[dependencies]
hyper = { version = "0.14", features = ["client", "http1", "http2", "tcp"] }
hyper-tls = "0.5"
tokio = { version = "1", features = ["full"] }
log = "0.4"
loggerv = "0.7"
structopt = "0.3"
thiserror = "1"
