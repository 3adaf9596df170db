[package]
name = "nlx_gateway"
version = "0.1.0"
edition = "2021"
publish = false

[dependencies]
anyhow = "1"
async-channel = "1"
backoff = "0.4"
bytes = "1"
clap = { version = "4", features = ["derive", "env"] }
futures-util = "0.3"
h2 = "0.3"
hostname = "0.3"
http = "0.2"
hyper = { version = "0.14", features = ["client", "http1", "http2", "tcp", "stream"] }
hyper-rustls = { version = "0.23", features = ["http2"] }
itertools = "0.10"
log = "0.4"
pem = "1"
pretty_env_logger = "0.4"
prost = "0.11"
reqwest = { version = "0.11", default-features = false, features = ["stream", "rustls-tls"] }
rocket = "0.5"
rustls = "0.20"
serde = { version = "1", features = ["derive"] }
tokio = { version = "1", features = ["full"] }
tokio-util = { version = "0.7", features = ["compat"] }
tonic = { version = "0.8", features = ["tls"] }
url = "2"
warp = { version = "0.3", features = ["tls"] }
wyhash2 = "*"
x509-parser = "0.14"
