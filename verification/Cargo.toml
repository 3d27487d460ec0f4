[package]
name = "bouncy"
version = "0.1.0"
edition = "2021"
publish = false

[dependencies]
anyhow = "1"
async-trait = "0.1"
brotli = "=9.1.1"
bytes = "1"
clap = { version = "4", features = ["derive"] }
crossterm = "*"
flate2 = "=1.1.10"
futures-util = "0.3"
html-escape = "=0.2.15"
html5ever = "=0.39.0"
http = "1"
http-body-util = "0.1"
hyper = { version = "1", features = ["client", "server", "http1", "http2"] }
hyper-rustls = { version = "0.27", default-features = false, features = ["http1", "http2", "ring", "native-tokio", "tls12"] }
hyper-util = { version = "0.1", features = ["client", "client-legacy", "client-proxy", "http1", "http2", "tokio"] }
indexmap = "=2.14.2"
lol_html = "=2.9.0"
markup5ever_rcdom = "=0.39.0"
ratatui = "*"
rustls = { version = "0.23", default-features = false, features = ["ring", "std", "tls12", "logging"] }
rustls-native-certs = "0.8"
schemars = "*"
serde = { version = "1", features = ["derive"] }
serde_json = "=1.0.154"
thiserror = "*"
tokio = { version = "1", features = ["full"] }
tokio-tungstenite = "*"
tracing = "0.1"
url = "=2.5.8"
v8 = "*"
