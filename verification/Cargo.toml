[package]
name = "minelaunch"
version = "0.1.0"
edition = "2021"
publish = false

[dependencies]
base32 = "0.4"
chrono = "0.4"
futures = "0.3"
futures-util = "0.3"
hyper = { version = "1", features = ["server", "http1"] }
hyper-util = { version = "0.1", features = ["tokio"] }
lazy_static = "1"
log = "0.4"
oauth2 = { version = "4", default-features = false }
regex = "1"
reqwest = { version = "0.11", default-features = false, features = ["json", "stream", "rustls-tls"] }
ring = "0.17"
serde = { version = "1", features = ["derive"] }
serde_json = "1"
serde_urlencoded = "0.7"
tokio = { version = "1", features = ["full"] }
url = "2"
