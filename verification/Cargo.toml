[package]
name = "dns_pool"
version = "0.1.0"
edition = "2021"
publish = false

[dependencies]
bytes = "1"
futures-executor = "0.3"
futures-util = "0.3"
h2 = "0.4"
http = "1"
quinn = { version = "0.11", default-features = false, features = ["runtime-tokio", "rustls-ring"] }
rand = "0.8"
rustls = { version = "0.23", default-features = false, features = ["ring", "std", "tls12", "logging"] }
smallvec = "1"
tokio = { version = "1", features = ["net", "time", "rt", "rt-multi-thread", "macros", "io-util", "sync"] }
tokio-rustls = { version = "0.26", default-features = false, features = ["ring", "tls12", "logging"] }
tracing = "0.1"
