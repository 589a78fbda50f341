[package]
name = "dnsix"
version = "0.1.0"
edition = "2021"
publish = false

[dependencies]
anyhow = "1"
async-trait = "0.1"
axum = "0.8"
clap = { version = "4", features = ["derive"] }
futures-util = "0.3"
hickory-client = { version = "0.25", features = ["tls-ring", "webpki-roots"] }
hickory-proto = { version = "0.25", features = ["tokio", "tls-ring", "webpki-roots"] }
hickory-server = "0.25"
maud = { version = "0.27", features = ["axum"] }
moka = { version = "0.12", features = ["sync"] }
serde = { version = "1", features = ["derive"] }
socket2 = { version = "0.5", features = ["all"] }
tokio = { version = "1", features = ["full"] }
tokio-rustls = { version = "0.26", default-features = false, features = ["ring", "tls12", "logging"] }
tokio-stream = { version = "0.1", features = ["sync", "time"] }
toml = "0.8"
tracing = "0.1"
tracing-subscriber = { version = "0.3", features = ["env-filter"] }
webpki-roots = "0.26"
