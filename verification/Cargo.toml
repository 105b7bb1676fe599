[package]
name = "hath_rs"
version = "1.6.5"
edition = "2021"
publish = false

[dependencies]
arc-swap = "=1.9.3"
bincode = "=1.3.3"
bytes = "=1.12.1"
chrono = "=0.4.45"
clap = { version = "=4.6.7", features = ["derive", "env"] }
dashmap = "=6.2.1"
fs2 = "=0.4.3"
http = "=1.5.0"
http-body = "=1.1.0"
http-body-util = "=0.1.5"
hyper = { version = "=1.12.0", features = ["server", "http1"] }
hyper-util = { version = "=0.1.21", features = ["tokio"] }
p12 = "=0.6.3"
rand = "=0.10.3"
regex = "=1.13.1"
reqwest = { version = "=0.13.5", default-features = false, features = ["rustls-no-provider", "socks"] }
rustls = "=0.23.46"
rustls-native-certs = "=0.8.5"
sha1 = "=0.10.7"
sha2 = "=0.10.9"
socket2 = "=0.6.5"
thiserror = "=2.0.21"
tokio = { version = "=1.54.1", features = ["full"] }
tokio-rustls = "=0.26.6"
tokio-util = "=0.7.20"
tracing = "=0.1.44"
tracing-subscriber = { version = "=0.3.23", features = ["env-filter"] }
uuid = { version = "=1.29.0", features = ["v7"] }
x509-parser = { version = "=0.18.1", features = ["verify"] }

[dev-dependencies]
tempfile = "=3.27.0"
