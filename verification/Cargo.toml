[package]
name = "proxy_transport"
version = "0.1.0"
edition = "2021"
publish = false

[dependencies]
async-http-proxy = { version = "1.2", features = ["runtime-tokio", "basic-auth"] }
async-tungstenite = { version = "0.25", features = ["tokio-runtime", "tokio-rustls-webpki-roots"] }
colored = "2"
fast-socks5 = "0.9"
futures-util = "0.3"
rand = "0.8"
rustls = "0.22"
rustls-pki-types = "1"
serde = { version = "1", features = ["derive"] }
snafu = "0.8"
tokio = { version = "1", features = ["net", "sync", "rt", "macros", "io-util"] }
tokio-rustls = "0.25"
url = "2"
webpki-roots = "0.26"
