[package]
name = "protocol"
version = "0.1.0"
edition = "2021"
publish = false

[dependencies]
rand = "0.8"
multimap = "0.10"
uuid = { version = "1", features = ["v4"] }
tokio = { version = "1", features = ["full"] }
tokio-rustls = { version = "0.26", default-features = false, features = ["ring", "logging", "tls12"] }
rustls = { version = "0.23", default-features = false, features = ["ring", "logging", "std", "tls12"] }
openssl = "0.10"
socket2 = "0.5"
async-trait = "0.1"
log = "0.4"
thiserror = "1"
derive_more = "0.99"
tokio-util = "0.7"
chrono = "0.4"
num_enum = "0.7"
