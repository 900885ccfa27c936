[package]
name = "ipp"
version = "0.1.0"
edition = "2021"
publish = false

[dependencies]
bytes = "1"
env_logger = "0.10"
futures = "0.3"
futures-util = "0.3"
http = "0.2"
log = "0.4"
pin-project = "1"
reqwest = { version = "0.11", default-features = false, features = ["stream", "rustls-tls"] }
structopt = "0.3"
tokio = { version = "1", features = ["macros", "rt-multi-thread"] }
