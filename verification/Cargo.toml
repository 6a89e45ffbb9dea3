[package]
name = "dot_http"
version = "0.1.0"
edition = "2021"
publish = false

[dependencies]
Boa = "=0.8.0"
clap = "=2.34.0"
reqwest = { version = "=0.11.27", default-features = false, features = ["blocking", "rustls-tls"] }
serde_json = "=1.0.154"

[dev-dependencies]
pest = "=2.9.4"
